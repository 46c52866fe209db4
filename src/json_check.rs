use vstd::prelude::*;
use vstd::string::StrSliceExecFns;

verus! {

// Positions are indexes into the text; each scanner returns where the
// construct it reads ends, or nothing when the text does not have one there.

pub open spec fn is_ws(c: char) -> bool {
    c == ' ' || c == '\t' || c == '\n' || c == '\r'
}

pub open spec fn is_digit(c: char) -> bool {
    '0' <= c <= '9'
}

pub open spec fn is_hex(c: char) -> bool {
    is_digit(c) || ('a' <= c <= 'f') || ('A' <= c <= 'F')
}

/// The first position at or after `i` that is not white space.
pub open spec fn skip_ws(s: Seq<char>, i: int) -> int
    decreases s.len() - i,
{
    if 0 <= i < s.len() && is_ws(s[i]) {
        skip_ws(s, i + 1)
    } else {
        i
    }
}

/// The first position at or after `i` that is not a digit.
pub open spec fn skip_digits(s: Seq<char>, i: int) -> int
    decreases s.len() - i,
{
    if 0 <= i < s.len() && is_digit(s[i]) {
        skip_digits(s, i + 1)
    } else {
        i
    }
}

/// Four hex digits start at `i`.
pub open spec fn hex4(s: Seq<char>, i: int) -> bool {
    0 <= i && i + 4 <= s.len() && is_hex(s[i]) && is_hex(s[i + 1]) && is_hex(s[i + 2]) && is_hex(s[i + 3])
}

/// The four hex digits at `i` name a high surrogate (`D800` to `DBFF`).
pub open spec fn high_surrogate(s: Seq<char>, i: int) -> bool {
    (s[i] == 'd' || s[i] == 'D') && (s[i + 1] == '8' || s[i + 1] == '9' || s[i + 1] == 'a' || s[i + 1] == 'b'
        || s[i + 1] == 'A' || s[i + 1] == 'B')
}

/// A number: an optional minus, one to eighteen digits, and an optional
/// fraction. Exponents are not read.
pub open spec fn scan_number(s: Seq<char>, i: int) -> Option<int> {
    let j = if 0 <= i < s.len() && s[i] == '-' { i + 1 } else { i };
    let k = skip_digits(s, j);
    if k == j || k - j > 18 {
        None
    } else if k < s.len() && s[k] == '.' {
        let m = skip_digits(s, k + 1);
        if m == k + 1 {
            None
        } else {
            Some(m)
        }
    } else {
        Some(k)
    }
}

/// The rest of a string from `j` to its closing quote. Escapes are the JSON
/// ones; a high surrogate escape must be followed by another `\u` escape.
pub open spec fn scan_string_body(s: Seq<char>, j: int) -> Option<int>
    decreases s.len() - j,
{
    if j < 0 || j >= s.len() {
        None
    } else if s[j] == '"' {
        Some(j + 1)
    } else if s[j] == '\\' {
        if j + 1 >= s.len() {
            None
        } else {
            let e = s[j + 1];
            if e == '"' || e == '\\' || e == '/' || e == 'b' || e == 'f' || e == 'n' || e == 'r' || e == 't' {
                scan_string_body(s, j + 2)
            } else if e == 'u' && hex4(s, j + 2) {
                if high_surrogate(s, j + 2) {
                    if j + 8 <= s.len() && s[j + 6] == '\\' && s[j + 7] == 'u' && hex4(s, j + 8) {
                        scan_string_body(s, j + 12)
                    } else {
                        None
                    }
                } else {
                    scan_string_body(s, j + 6)
                }
            } else {
                None
            }
        }
    } else if (s[j] as u32) < 0x20 {
        None
    } else {
        scan_string_body(s, j + 1)
    }
}

/// A string starting with its opening quote at `i`.
pub open spec fn scan_string(s: Seq<char>, i: int) -> Option<int> {
    if 0 <= i < s.len() && s[i] == '"' {
        scan_string_body(s, i + 1)
    } else {
        None
    }
}

/// The literal `w` at `i`.
pub open spec fn scan_word(s: Seq<char>, i: int, w: Seq<char>) -> Option<int> {
    if 0 <= i && i + w.len() <= s.len() && s.subrange(i, i + w.len() as int) =~= w {
        Some(i + w.len())
    } else {
        None
    }
}

/// A value starting at `i`.
pub open spec fn scan_value(s: Seq<char>, i: int) -> Option<int>
    decreases s.len() - i, 0int,
{
    if i < 0 || i >= s.len() {
        None
    } else if s[i] == '{' {
        let j = skip_ws(s, i + 1);
        if 0 <= j < s.len() && s[j] == '}' {
            Some(j + 1)
        } else if i < j < s.len() {
            scan_members(s, j)
        } else {
            None
        }
    } else if s[i] == '[' {
        let j = skip_ws(s, i + 1);
        if 0 <= j < s.len() && s[j] == ']' {
            Some(j + 1)
        } else if i < j < s.len() {
            scan_elements(s, j)
        } else {
            None
        }
    } else if s[i] == '"' {
        scan_string(s, i)
    } else if s[i] == 't' {
        scan_word(s, i, seq!['t', 'r', 'u', 'e'])
    } else if s[i] == 'f' {
        scan_word(s, i, seq!['f', 'a', 'l', 's', 'e'])
    } else if s[i] == 'n' {
        scan_word(s, i, seq!['n', 'u', 'l', 'l'])
    } else {
        scan_number(s, i)
    }
}

/// The members of an object from the first key at `j` to the closing brace.
pub open spec fn scan_members(s: Seq<char>, j: int) -> Option<int>
    decreases s.len() - j, 1int,
{
    match scan_string(s, j) {
        None => None,
        Some(k) => {
            let c = skip_ws(s, k);
            if 0 <= c < s.len() && s[c] == ':' {
                let v = skip_ws(s, c + 1);
                if j < v < s.len() {
                    match scan_value(s, v) {
                        None => None,
                        Some(e) => {
                            let d = skip_ws(s, e);
                            if 0 <= d < s.len() && s[d] == ',' {
                                let n = skip_ws(s, d + 1);
                                if j < n < s.len() {
                                    scan_members(s, n)
                                } else {
                                    None
                                }
                            } else if 0 <= d < s.len() && s[d] == '}' {
                                Some(d + 1)
                            } else {
                                None
                            }
                        },
                    }
                } else {
                    None
                }
            } else {
                None
            }
        },
    }
}

/// The elements of an array from the first one at `j` to the closing bracket.
pub open spec fn scan_elements(s: Seq<char>, j: int) -> Option<int>
    decreases s.len() - j, 1int,
{
    match scan_value(s, j) {
        None => None,
        Some(e) => {
            let d = skip_ws(s, e);
            if 0 <= d < s.len() && s[d] == ',' {
                let n = skip_ws(s, d + 1);
                if j < n < s.len() {
                    scan_elements(s, n)
                } else {
                    None
                }
            } else if 0 <= d < s.len() && s[d] == ']' {
                Some(d + 1)
            } else {
                None
            }
        },
    }
}

/// The text is one JSON object, with white space around it, in the subset
/// that configuration decoding accepts: numbers without exponents and with
/// at most eighteen integer digits, and every high surrogate escape followed
/// by another `\u` escape. Lookups into such text are safe only along paths
/// that descend through containers.
pub open spec fn well_formed_json(s: Seq<char>) -> bool {
    let i = skip_ws(s, 0);
    &&& i < s.len()
    &&& s[i] == '{'
    &&& match scan_value(s, i) {
        Some(e) => skip_ws(s, e) == s.len(),
        None => false,
    }
}

pub open spec fn pos(r: Option<usize>) -> Option<int> {
    match r {
        Some(k) => Some(k as int),
        None => None,
    }
}

fn chars_of(doc: &str) -> (r: Vec<char>)
    ensures
        r@ == doc@,
{
    let n = doc.unicode_len();
    let mut v: Vec<char> = Vec::new();
    let mut i: usize = 0;
    while i < n
        invariant
            i <= n,
            n == doc@.len(),
            v@ == doc@.subrange(0, i as int),
        decreases n - i,
    {
        v.push(doc.get_char(i));
        proof {
            assert(v@ =~= doc@.subrange(0, i + 1));
        }
        i += 1;
    }
    proof {
        assert(v@ =~= doc@);
    }
    v
}

fn ws_end(cs: &Vec<char>, i: usize) -> (r: usize)
    requires
        i <= cs@.len(),
    ensures
        r as int == skip_ws(cs@, i as int),
        i <= r <= cs@.len(),
{
    let mut j = i;
    while j < cs.len() && (cs[j] == ' ' || cs[j] == '\t' || cs[j] == '\n' || cs[j] == '\r')
        invariant
            i <= j <= cs@.len(),
            skip_ws(cs@, j as int) == skip_ws(cs@, i as int),
        decreases cs@.len() - j,
    {
        j += 1;
    }
    j
}

fn digits_end(cs: &Vec<char>, i: usize) -> (r: usize)
    requires
        i <= cs@.len(),
    ensures
        r as int == skip_digits(cs@, i as int),
        i <= r <= cs@.len(),
{
    let mut j = i;
    while j < cs.len() && ('0' <= cs[j] && cs[j] <= '9')
        invariant
            i <= j <= cs@.len(),
            skip_digits(cs@, j as int) == skip_digits(cs@, i as int),
        decreases cs@.len() - j,
    {
        j += 1;
    }
    j
}

fn hex(c: char) -> (r: bool)
    ensures
        r == is_hex(c),
{
    ('0' <= c && c <= '9') || ('a' <= c && c <= 'f') || ('A' <= c && c <= 'F')
}

fn hex4_at(cs: &Vec<char>, i: usize) -> (r: bool)
    ensures
        r == hex4(cs@, i as int),
{
    i <= cs.len() && cs.len() - i >= 4 && hex(cs[i]) && hex(cs[i + 1]) && hex(cs[i + 2]) && hex(cs[i + 3])
}

fn number_end(cs: &Vec<char>, i: usize) -> (r: Option<usize>)
    requires
        i < cs@.len(),
    ensures
        pos(r) == scan_number(cs@, i as int),
        r matches Some(k) ==> k <= cs@.len(),
{
    let j: usize = if i < cs.len() && cs[i] == '-' { i + 1 } else { i };
    let k = digits_end(cs, j);
    if k == j || k - j > 18 {
        None
    } else if k < cs.len() && cs[k] == '.' {
        let m = digits_end(cs, k + 1);
        if m == k + 1 {
            None
        } else {
            Some(m)
        }
    } else {
        Some(k)
    }
}

fn string_end(cs: &Vec<char>, i: usize) -> (r: Option<usize>)
    ensures
        pos(r) == scan_string(cs@, i as int),
        r matches Some(k) ==> k <= cs@.len(),
{
    if !(i < cs.len() && cs[i] == '"') {
        return None;
    }
    let mut j = i + 1;
    while j < cs.len()
        invariant
            i < j <= cs@.len(),
            scan_string(cs@, i as int) == scan_string_body(cs@, j as int),
        decreases cs@.len() - j,
    {
        let c = cs[j];
        if c == '"' {
            return Some(j + 1);
        } else if c == '\\' {
            if cs.len() - j < 2 {
                return None;
            }
            let e = cs[j + 1];
            if e == '"' || e == '\\' || e == '/' || e == 'b' || e == 'f' || e == 'n' || e == 'r' || e == 't' {
                j = j + 2;
            } else if e == 'u' && hex4_at(cs, j + 2) {
                let h = cs[j + 2];
                let l = cs[j + 3];
                if (h == 'd' || h == 'D') && (l == '8' || l == '9' || l == 'a' || l == 'b' || l == 'A' || l == 'B') {
                    if cs.len() - j >= 8 && cs[j + 6] == '\\' && cs[j + 7] == 'u' && hex4_at(cs, j + 8) {
                        j = j + 12;
                    } else {
                        return None;
                    }
                } else {
                    j = j + 6;
                }
            } else {
                return None;
            }
        } else if (c as u32) < 0x20 {
            return None;
        } else {
            j = j + 1;
        }
    }
    None
}

fn value_end(cs: &Vec<char>, i: usize) -> (r: Option<usize>)
    requires
        i <= cs@.len(),
    ensures
        pos(r) == scan_value(cs@, i as int),
        r matches Some(k) ==> k <= cs@.len(),
    decreases cs@.len() - i, 0int,
{
    let s = Ghost(cs@);
    if i >= cs.len() {
        return None;
    }
    let c = cs[i];
    if c == '{' {
        let j = ws_end(cs, i + 1);
        if j < cs.len() && cs[j] == '}' {
            Some(j + 1)
        } else if i < j && j < cs.len() {
            members_end(cs, j)
        } else {
            None
        }
    } else if c == '[' {
        let j = ws_end(cs, i + 1);
        if j < cs.len() && cs[j] == ']' {
            Some(j + 1)
        } else if i < j && j < cs.len() {
            elements_end(cs, j)
        } else {
            None
        }
    } else if c == '"' {
        string_end(cs, i)
    } else if c == 't' {
        if cs.len() - i >= 4 && cs[i + 1] == 'r' && cs[i + 2] == 'u' && cs[i + 3] == 'e' {
            proof {
                assert(s@.subrange(i as int, i + 4) =~= seq!['t', 'r', 'u', 'e']);
            }
            Some(i + 4)
        } else {
            proof {
                if i + 4 <= s@.len() && s@.subrange(i as int, i + 4) =~= seq!['t', 'r', 'u', 'e'] {
                    assert(s@.subrange(i as int, i + 4)[1] == s@[i + 1]);
                    assert(s@.subrange(i as int, i + 4)[2] == s@[i + 2]);
                    assert(s@.subrange(i as int, i + 4)[3] == s@[i + 3]);
                }
            }
            None
        }
    } else if c == 'f' {
        if cs.len() - i >= 5 && cs[i + 1] == 'a' && cs[i + 2] == 'l' && cs[i + 3] == 's' && cs[i + 4] == 'e' {
            proof {
                assert(s@.subrange(i as int, i + 5) =~= seq!['f', 'a', 'l', 's', 'e']);
            }
            Some(i + 5)
        } else {
            proof {
                if i + 5 <= s@.len() && s@.subrange(i as int, i + 5) =~= seq!['f', 'a', 'l', 's', 'e'] {
                    assert(s@.subrange(i as int, i + 5)[1] == s@[i + 1]);
                    assert(s@.subrange(i as int, i + 5)[2] == s@[i + 2]);
                    assert(s@.subrange(i as int, i + 5)[3] == s@[i + 3]);
                    assert(s@.subrange(i as int, i + 5)[4] == s@[i + 4]);
                }
            }
            None
        }
    } else if c == 'n' {
        if cs.len() - i >= 4 && cs[i + 1] == 'u' && cs[i + 2] == 'l' && cs[i + 3] == 'l' {
            proof {
                assert(s@.subrange(i as int, i + 4) =~= seq!['n', 'u', 'l', 'l']);
            }
            Some(i + 4)
        } else {
            proof {
                if i + 4 <= s@.len() && s@.subrange(i as int, i + 4) =~= seq!['n', 'u', 'l', 'l'] {
                    assert(s@.subrange(i as int, i + 4)[1] == s@[i + 1]);
                    assert(s@.subrange(i as int, i + 4)[2] == s@[i + 2]);
                    assert(s@.subrange(i as int, i + 4)[3] == s@[i + 3]);
                }
            }
            None
        }
    } else {
        number_end(cs, i)
    }
}

fn members_end(cs: &Vec<char>, j: usize) -> (r: Option<usize>)
    requires
        j < cs@.len(),
    ensures
        pos(r) == scan_members(cs@, j as int),
        r matches Some(k) ==> k <= cs@.len(),
    decreases cs@.len() - j, 1int,
{
    match string_end(cs, j) {
        None => None,
        Some(k) => {
            let c = ws_end(cs, k);
            if c < cs.len() && cs[c] == ':' {
                let v = ws_end(cs, c + 1);
                if j < v && v < cs.len() {
                    match value_end(cs, v) {
                        None => None,
                        Some(e) => {
                            let d = ws_end(cs, e);
                            if d < cs.len() && cs[d] == ',' {
                                let n = ws_end(cs, d + 1);
                                if j < n && n < cs.len() {
                                    members_end(cs, n)
                                } else {
                                    None
                                }
                            } else if d < cs.len() && cs[d] == '}' {
                                Some(d + 1)
                            } else {
                                None
                            }
                        },
                    }
                } else {
                    None
                }
            } else {
                None
            }
        },
    }
}

fn elements_end(cs: &Vec<char>, j: usize) -> (r: Option<usize>)
    requires
        j < cs@.len(),
    ensures
        pos(r) == scan_elements(cs@, j as int),
        r matches Some(k) ==> k <= cs@.len(),
    decreases cs@.len() - j, 1int,
{
    match value_end(cs, j) {
        None => None,
        Some(e) => {
            let d = ws_end(cs, e);
            if d < cs.len() && cs[d] == ',' {
                let n = ws_end(cs, d + 1);
                if j < n && n < cs.len() {
                    elements_end(cs, n)
                } else {
                    None
                }
            } else if d < cs.len() && cs[d] == ']' {
                Some(d + 1)
            } else {
                None
            }
        },
    }
}

/// Whether a text is a JSON object in the subset that configuration
/// decoding accepts.
pub fn check_json(doc: &str) -> (r: bool)
    ensures
        r == well_formed_json(doc@),
{
    let cs = chars_of(doc);
    let i = ws_end(&cs, 0);
    if i >= cs.len() || cs[i] != '{' {
        return false;
    }
    match value_end(&cs, i) {
        Some(e) => ws_end(&cs, e) == cs.len(),
        None => false,
    }
}

} // verus!
