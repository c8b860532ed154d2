use crate::errors::Error;
use vstd::prelude::*;

verus! {

/// Upper bound on the client data document; longer inputs are rejected.
pub const MAX_CLIENT_DATA_JSON_LEN: usize = 1024;

/// The `type` and `challenge` string fields extracted from a client data
/// document, as their raw bytes.
#[derive(Debug)]
pub struct ParsedClientData {
    pub type_field: Vec<u8>,
    pub challenge: Vec<u8>,
}

/// The bytes of the key `type`.
pub open spec fn type_key() -> Seq<u8> {
    seq![116u8, 121u8, 112u8, 101u8]
}

/// The bytes of the key `challenge`.
pub open spec fn challenge_key() -> Seq<u8> {
    seq![99u8, 104u8, 97u8, 108u8, 108u8, 101u8, 110u8, 103u8, 101u8]
}

/// JSON insignificant whitespace: space, tab, line feed, carriage return.
pub open spec fn is_json_ws(b: u8) -> bool {
    b == 32 || b == 9 || b == 10 || b == 13
}

/// The first position at or after `i` that does not hold whitespace.
pub open spec fn ws_end(s: Seq<u8>, i: int) -> int
    decreases s.len() - i when 0 <= i <= s.len()
{
    if 0 <= i < s.len() && is_json_ws(s[i]) {
        ws_end(s, i + 1)
    } else {
        i
    }
}

/// Scanning a string body from `i` (just past the opening quote): the
/// position just past the closing quote, or -1 when the string is
/// unterminated, a backslash escape is cut short, or a control byte occurs.
pub open spec fn string_end(s: Seq<u8>, i: int) -> int
    decreases s.len() - i when 0 <= i <= s.len()
{
    if i >= s.len() {
        -1
    } else if s[i] == 34 {
        i + 1
    } else if s[i] == 92 {
        if i + 2 <= s.len() {
            string_end(s, i + 2)
        } else {
            -1
        }
    } else if s[i] < 32 {
        -1
    } else {
        string_end(s, i + 1)
    }
}

/// A byte that may continue a JSON number token.
pub open spec fn is_num_byte(b: u8) -> bool {
    (48 <= b && b <= 57) || b == 45 || b == 43 || b == 46 || b == 101 || b == 69
}

/// The first position at or after `i` that does not hold a number byte.
pub open spec fn num_end(s: Seq<u8>, i: int) -> int
    decreases s.len() - i when 0 <= i <= s.len()
{
    if 0 <= i < s.len() && is_num_byte(s[i]) {
        num_end(s, i + 1)
    } else {
        i
    }
}

/// The position just past the JSON value starting at `i`, or -1 when no
/// value of the accepted grammar starts there. Strings, objects, arrays,
/// `true`, `false`, `null` and loose number tokens are accepted.
pub open spec fn value_end(s: Seq<u8>, i: int) -> int
    decreases s.len() - i, 0int when 0 <= i <= s.len()
{
    if i >= s.len() {
        -1
    } else if s[i] == 34 {
        string_end(s, i + 1)
    } else if s[i] == 123 {
        object_end(s, i + 1)
    } else if s[i] == 91 {
        array_end(s, i + 1)
    } else if s[i] == 116 {
        if i + 4 <= s.len() && s[i + 1] == 114 && s[i + 2] == 117 && s[i + 3] == 101 {
            i + 4
        } else {
            -1
        }
    } else if s[i] == 102 {
        if i + 5 <= s.len() && s[i + 1] == 97 && s[i + 2] == 108 && s[i + 3] == 115 && s[i + 4]
            == 101 {
            i + 5
        } else {
            -1
        }
    } else if s[i] == 110 {
        if i + 4 <= s.len() && s[i + 1] == 117 && s[i + 2] == 108 && s[i + 3] == 108 {
            i + 4
        } else {
            -1
        }
    } else if (48 <= s[i] && s[i] <= 57) || s[i] == 45 {
        num_end(s, i + 1)
    } else {
        -1
    }
}

/// The position just past an object whose `{` stood at `j - 1`, or -1.
pub open spec fn object_end(s: Seq<u8>, j: int) -> int
    decreases s.len() - j, 2int when 0 <= j <= s.len()
{
    let k = ws_end(s, j);
    if k < j || k >= s.len() {
        -1
    } else if s[k] == 125 {
        k + 1
    } else {
        members_end(s, j)
    }
}

/// The position just past the members and closing `}` of an object body
/// starting (after optional whitespace) at `j`, or -1.
pub open spec fn members_end(s: Seq<u8>, j: int) -> int
    decreases s.len() - j, 1int when 0 <= j <= s.len()
{
    let k = ws_end(s, j);
    if k < j || k >= s.len() || s[k] != 34 {
        -1
    } else {
        let e1 = string_end(s, k + 1);
        if e1 < k + 2 || e1 > s.len() {
            -1
        } else {
            let c = ws_end(s, e1);
            if c < e1 || c >= s.len() || s[c] != 58 {
                -1
            } else {
                let v = ws_end(s, c + 1);
                if v < c + 1 || v > s.len() {
                    -1
                } else {
                    let e2 = value_end(s, v);
                    if e2 < v + 1 || e2 > s.len() {
                        -1
                    } else {
                        let t = ws_end(s, e2);
                        if t < e2 || t >= s.len() {
                            -1
                        } else if s[t] == 44 {
                            members_end(s, t + 1)
                        } else if s[t] == 125 {
                            t + 1
                        } else {
                            -1
                        }
                    }
                }
            }
        }
    }
}

/// The position just past an array whose `[` stood at `j - 1`, or -1.
pub open spec fn array_end(s: Seq<u8>, j: int) -> int
    decreases s.len() - j, 2int when 0 <= j <= s.len()
{
    let k = ws_end(s, j);
    if k < j || k >= s.len() {
        -1
    } else if s[k] == 93 {
        k + 1
    } else {
        items_end(s, j)
    }
}

/// The position just past the items and closing `]` of an array body
/// starting (after optional whitespace) at `j`, or -1.
pub open spec fn items_end(s: Seq<u8>, j: int) -> int
    decreases s.len() - j, 1int when 0 <= j <= s.len()
{
    let v = ws_end(s, j);
    if v < j || v > s.len() {
        -1
    } else {
        let e = value_end(s, v);
        if e < v + 1 || e > s.len() {
            -1
        } else {
            let t = ws_end(s, e);
            if t < e || t >= s.len() {
                -1
            } else if s[t] == 44 {
                items_end(s, t + 1)
            } else if s[t] == 93 {
                t + 1
            } else {
                -1
            }
        }
    }
}

/// Whether byte `b` occurs in `q`.
pub open spec fn contains_byte(q: Seq<u8>, b: u8) -> bool {
    exists|i: int| 0 <= i < q.len() && q[i] == b
}

/// Walks the members of the top-level object from `j`, accumulating the raw
/// string contents of the `type` and `challenge` fields. `None` on a grammar
/// violation, a duplicated or non-string `type` or `challenge` field, or an
/// escape sequence inside one of their values; unknown members are skipped.
pub open spec fn fields_scan(
    s: Seq<u8>,
    j: int,
    ty: Option<Seq<u8>>,
    ch: Option<Seq<u8>>,
) -> Option<(Option<Seq<u8>>, Option<Seq<u8>>)>
    decreases s.len() - j when 0 <= j <= s.len()
{
    let k = ws_end(s, j);
    if k < j || k >= s.len() || s[k] != 34 {
        None
    } else {
        let e1 = string_end(s, k + 1);
        if e1 < k + 2 || e1 > s.len() {
            None
        } else {
            let key = s.subrange(k + 1, e1 - 1);
            let c = ws_end(s, e1);
            if c < e1 || c >= s.len() || s[c] != 58 {
                None
            } else {
                let v = ws_end(s, c + 1);
                if v < c + 1 || v > s.len() {
                    None
                } else {
                    let e2 = value_end(s, v);
                    if e2 < v + 1 || e2 > s.len() {
                        None
                    } else {
                        let step = if key == type_key() {
                            if ty is Some || s[v] != 34 || contains_byte(
                                s.subrange(v + 1, e2 - 1),
                                92,
                            ) {
                                None
                            } else {
                                Some((Some(s.subrange(v + 1, e2 - 1)), ch))
                            }
                        } else if key == challenge_key() {
                            if ch is Some || s[v] != 34 || contains_byte(
                                s.subrange(v + 1, e2 - 1),
                                92,
                            ) {
                                None
                            } else {
                                Some((ty, Some(s.subrange(v + 1, e2 - 1))))
                            }
                        } else {
                            Some((ty, ch))
                        };
                        match step {
                            None => None,
                            Some((ty2, ch2)) => {
                                let t = ws_end(s, e2);
                                if t < e2 || t >= s.len() {
                                    None
                                } else if s[t] == 44 {
                                    fields_scan(s, t + 1, ty2, ch2)
                                } else if s[t] == 125 {
                                    Some((ty2, ch2))
                                } else {
                                    None
                                }
                            },
                        }
                    }
                }
            }
        }
    }
}

/// What parsing a client data document yields: the raw bytes of its `type`
/// and `challenge` string fields, or `None` when the document is over the
/// size bound, is not an object of the accepted grammar, or lacks either
/// field as a plain (escape-free) string. Content after the closing brace of
/// the top-level object is ignored.
pub open spec fn client_data_fields(s: Seq<u8>) -> Option<(Seq<u8>, Seq<u8>)> {
    if s.len() > MAX_CLIENT_DATA_JSON_LEN {
        None
    } else {
        let i = ws_end(s, 0);
        if i < 0 || i >= s.len() || s[i] != 123 {
            None
        } else {
            match fields_scan(s, i + 1, None, None) {
                Some((Some(t), Some(c))) => Some((t, c)),
                _ => None,
            }
        }
    }
}

/// The view of an optional byte vector.
pub open spec fn opt_view(o: Option<Vec<u8>>) -> Option<Seq<u8>> {
    match o {
        Some(v) => Some(v@),
        None => None,
    }
}

/// First non-whitespace position at or after `i`.
fn skip_ws(s: &Vec<u8>, i: usize) -> (r: usize)
    requires
        i <= s@.len(),
    ensures
        r == ws_end(s@, i as int),
        i <= r <= s@.len(),
{
    let mut p = i;
    while p < s.len() && (s[p] == 32 || s[p] == 9 || s[p] == 10 || s[p] == 13)
        invariant
            i <= p <= s@.len(),
            ws_end(s@, i as int) == ws_end(s@, p as int),
        decreases s@.len() - p,
    {
        p = p + 1;
    }
    p
}

/// Scan a string body from `i` (just past the opening quote).
fn scan_string(s: &Vec<u8>, i: usize) -> (r: Option<usize>)
    requires
        i <= s@.len(),
    ensures
        r is None ==> string_end(s@, i as int) == -1,
        r is Some ==> string_end(s@, i as int) == r->Some_0 && i + 1 <= r->Some_0 <= s@.len(),
{
    let mut p = i;
    loop
        invariant
            i <= p <= s@.len(),
            string_end(s@, i as int) == string_end(s@, p as int),
        decreases s@.len() - p,
    {
        if p >= s.len() {
            return None;
        }
        let b = s[p];
        if b == 34 {
            return Some(p + 1);
        } else if b == 92 {
            if p + 1 < s.len() {
                p = p + 2;
            } else {
                return None;
            }
        } else if b < 32 {
            return None;
        } else {
            p = p + 1;
        }
    }
}

/// First position at or after `i` that does not continue a number token.
fn scan_number(s: &Vec<u8>, i: usize) -> (r: usize)
    requires
        i <= s@.len(),
    ensures
        r == num_end(s@, i as int),
        i <= r <= s@.len(),
{
    let mut p = i;
    while p < s.len() && ((48 <= s[p] && s[p] <= 57) || s[p] == 45 || s[p] == 43 || s[p] == 46
        || s[p] == 101 || s[p] == 69)
        invariant
            i <= p <= s@.len(),
            num_end(s@, i as int) == num_end(s@, p as int),
        decreases s@.len() - p,
    {
        p = p + 1;
    }
    p
}

/// Scan past the JSON value starting at `i`.
fn scan_value(s: &Vec<u8>, i: usize) -> (r: Option<usize>)
    requires
        i <= s@.len(),
    ensures
        r is None ==> value_end(s@, i as int) == -1,
        r is Some ==> value_end(s@, i as int) == r->Some_0 && i + 1 <= r->Some_0 <= s@.len(),
        r is Some && i < s@.len() && s@[i as int] == 34 ==> r->Some_0 >= i + 2,
    decreases s@.len() - i, 0int,
{
    if i >= s.len() {
        return None;
    }
    let b = s[i];
    if b == 34 {
        scan_string(s, i + 1)
    } else if b == 123 {
        scan_object(s, i + 1)
    } else if b == 91 {
        scan_array(s, i + 1)
    } else if b == 116 {
        if s.len() - i >= 4 && s[i + 1] == 114 && s[i + 2] == 117 && s[i + 3] == 101 {
            Some(i + 4)
        } else {
            None
        }
    } else if b == 102 {
        if s.len() - i >= 5 && s[i + 1] == 97 && s[i + 2] == 108 && s[i + 3] == 115 && s[i + 4]
            == 101 {
            Some(i + 5)
        } else {
            None
        }
    } else if b == 110 {
        if s.len() - i >= 4 && s[i + 1] == 117 && s[i + 2] == 108 && s[i + 3] == 108 {
            Some(i + 4)
        } else {
            None
        }
    } else if (48 <= b && b <= 57) || b == 45 {
        Some(scan_number(s, i + 1))
    } else {
        None
    }
}

/// Scan past an object body whose `{` stood at `j - 1`.
fn scan_object(s: &Vec<u8>, j: usize) -> (r: Option<usize>)
    requires
        j <= s@.len(),
    ensures
        r is None ==> object_end(s@, j as int) == -1,
        r is Some ==> object_end(s@, j as int) == r->Some_0 && j + 1 <= r->Some_0 <= s@.len(),
    decreases s@.len() - j, 2int,
{
    let k = skip_ws(s, j);
    if k >= s.len() {
        return None;
    }
    if s[k] == 125 {
        return Some(k + 1);
    }
    scan_members(s, j)
}

/// Scan past the members and closing `}` of an object body from `j`.
fn scan_members(s: &Vec<u8>, j: usize) -> (r: Option<usize>)
    requires
        j <= s@.len(),
    ensures
        r is None ==> members_end(s@, j as int) == -1,
        r is Some ==> members_end(s@, j as int) == r->Some_0 && j + 1 <= r->Some_0 <= s@.len(),
    decreases s@.len() - j, 1int,
{
    let k = skip_ws(s, j);
    if k >= s.len() || s[k] != 34 {
        return None;
    }
    let e1 = match scan_string(s, k + 1) {
        Some(e) => e,
        None => {
            return None;
        },
    };
    let c = skip_ws(s, e1);
    if c >= s.len() || s[c] != 58 {
        return None;
    }
    let v = skip_ws(s, c + 1);
    let e2 = match scan_value(s, v) {
        Some(e) => e,
        None => {
            return None;
        },
    };
    let t = skip_ws(s, e2);
    if t >= s.len() {
        return None;
    }
    if s[t] == 44 {
        scan_members(s, t + 1)
    } else if s[t] == 125 {
        Some(t + 1)
    } else {
        None
    }
}

/// Scan past an array body whose `[` stood at `j - 1`.
fn scan_array(s: &Vec<u8>, j: usize) -> (r: Option<usize>)
    requires
        j <= s@.len(),
    ensures
        r is None ==> array_end(s@, j as int) == -1,
        r is Some ==> array_end(s@, j as int) == r->Some_0 && j + 1 <= r->Some_0 <= s@.len(),
    decreases s@.len() - j, 2int,
{
    let k = skip_ws(s, j);
    if k >= s.len() {
        return None;
    }
    if s[k] == 93 {
        return Some(k + 1);
    }
    scan_items(s, j)
}

/// Scan past the items and closing `]` of an array body from `j`.
fn scan_items(s: &Vec<u8>, j: usize) -> (r: Option<usize>)
    requires
        j <= s@.len(),
    ensures
        r is None ==> items_end(s@, j as int) == -1,
        r is Some ==> items_end(s@, j as int) == r->Some_0 && j + 1 <= r->Some_0 <= s@.len(),
    decreases s@.len() - j, 1int,
{
    let v = skip_ws(s, j);
    let e = match scan_value(s, v) {
        Some(e) => e,
        None => {
            return None;
        },
    };
    let t = skip_ws(s, e);
    if t >= s.len() {
        return None;
    }
    if s[t] == 44 {
        scan_items(s, t + 1)
    } else if s[t] == 93 {
        Some(t + 1)
    } else {
        None
    }
}

/// Whether the range `[a, b)` of `s` holds exactly the bytes of `type`.
fn range_is_type_key(s: &Vec<u8>, a: usize, b: usize) -> (r: bool)
    requires
        a <= b <= s@.len(),
    ensures
        r == (s@.subrange(a as int, b as int) == type_key()),
{
    let ghost sub = s@.subrange(a as int, b as int);
    if b - a != 4 {
        proof {
            assert(sub.len() == b - a);
            assert(type_key().len() == 4);
        }
        return false;
    }
    proof {
        assert(sub[0] == s@[a as int] && sub[1] == s@[a as int + 1] && sub[2] == s@[a as int + 2]
            && sub[3] == s@[a as int + 3]);
    }
    let r = s[a] == 116 && s[a + 1] == 121 && s[a + 2] == 112 && s[a + 3] == 101;
    proof {
        if r {
            assert(sub =~= type_key());
        }
    }
    r
}

/// Whether the range `[a, b)` of `s` holds exactly the bytes of `challenge`.
fn range_is_challenge_key(s: &Vec<u8>, a: usize, b: usize) -> (r: bool)
    requires
        a <= b <= s@.len(),
    ensures
        r == (s@.subrange(a as int, b as int) == challenge_key()),
{
    let ghost sub = s@.subrange(a as int, b as int);
    if b - a != 9 {
        proof {
            assert(sub.len() == b - a);
            assert(challenge_key().len() == 9);
        }
        return false;
    }
    proof {
        assert(forall|q: int| 0 <= q < 9 ==> sub[q] == s@[a + q]);
    }
    let r = s[a] == 99 && s[a + 1] == 104 && s[a + 2] == 97 && s[a + 3] == 108 && s[a + 4] == 108
        && s[a + 5] == 101 && s[a + 6] == 110 && s[a + 7] == 103 && s[a + 8] == 101;
    proof {
        if r {
            assert(sub =~= challenge_key());
        }
    }
    r
}

/// Copy the range `[a, b)` of `s` into a fresh vector.
fn subvec(s: &Vec<u8>, a: usize, b: usize) -> (r: Vec<u8>)
    requires
        a <= b <= s@.len(),
    ensures
        r@ == s@.subrange(a as int, b as int),
{
    let mut r: Vec<u8> = Vec::new();
    let mut p = a;
    while p < b
        invariant
            a <= p <= b <= s@.len(),
            r@ == s@.subrange(a as int, p as int),
        decreases b - p,
    {
        r.push(s[p]);
        proof {
            assert(r@ =~= s@.subrange(a as int, p as int + 1));
        }
        p = p + 1;
    }
    r
}

/// Whether the range `[a, b)` of `s` holds a backslash.
fn range_has_backslash(s: &Vec<u8>, a: usize, b: usize) -> (r: bool)
    requires
        a <= b <= s@.len(),
    ensures
        r == contains_byte(s@.subrange(a as int, b as int), 92),
{
    let ghost sub = s@.subrange(a as int, b as int);
    let mut p = a;
    while p < b
        invariant
            a <= p <= b <= s@.len(),
            sub == s@.subrange(a as int, b as int),
            forall|q: int| a <= q < p ==> s@[q] != 92,
        decreases b - p,
    {
        if s[p] == 92 {
            proof {
                assert(sub[p - a] == 92);
            }
            return true;
        }
        p = p + 1;
    }
    proof {
        assert(forall|q: int| 0 <= q < sub.len() ==> sub[q] == s@[a + q] && s@[a + q] != 92);
    }
    false
}

/// Walk the members of the top-level object, collecting the `type` and
/// `challenge` field values.
fn scan_fields(s: &Vec<u8>, j: usize, ty: Option<Vec<u8>>, ch: Option<Vec<u8>>) -> (r: Option<
    (Option<Vec<u8>>, Option<Vec<u8>>),
>)
    requires
        j <= s@.len(),
    ensures
        r is None ==> fields_scan(s@, j as int, opt_view(ty), opt_view(ch)) is None,
        r is Some ==> fields_scan(s@, j as int, opt_view(ty), opt_view(ch)) == Some(
            (opt_view(r->Some_0.0), opt_view(r->Some_0.1)),
        ),
    decreases s@.len() - j,
{
    let k = skip_ws(s, j);
    if k >= s.len() || s[k] != 34 {
        return None;
    }
    let e1 = match scan_string(s, k + 1) {
        Some(e) => e,
        None => {
            return None;
        },
    };
    let c = skip_ws(s, e1);
    if c >= s.len() || s[c] != 58 {
        return None;
    }
    let v = skip_ws(s, c + 1);
    let e2 = match scan_value(s, v) {
        Some(e) => e,
        None => {
            return None;
        },
    };
    let is_ty = range_is_type_key(s, k + 1, e1 - 1);
    let is_ch = range_is_challenge_key(s, k + 1, e1 - 1);
    let mut ty2 = ty;
    let mut ch2 = ch;
    if is_ty || is_ch {
        if is_ty && ty2.is_some() {
            return None;
        }
        if is_ch && ch2.is_some() {
            return None;
        }
        if s[v] != 34 {
            return None;
        }
        if range_has_backslash(s, v + 1, e2 - 1) {
            return None;
        }
        let content = subvec(s, v + 1, e2 - 1);
        if is_ty {
            ty2 = Some(content);
        } else {
            ch2 = Some(content);
        }
    }
    let t = skip_ws(s, e2);
    if t >= s.len() {
        return None;
    }
    if s[t] == 44 {
        scan_fields(s, t + 1, ty2, ch2)
    } else if s[t] == 125 {
        Some((ty2, ch2))
    } else {
        None
    }
}

/// Extract the `type` and `challenge` string fields from an untrusted client
/// data document.
///
/// Fails with `ClientDataParseError` when the input is longer than
/// `MAX_CLIENT_DATA_JSON_LEN` bytes, is not an object of the accepted JSON
/// grammar, or is missing either field or has it as something other than a
/// plain (escape-free) string; any other members, in any order, are ignored.
pub fn parse(client_data_json: &Vec<u8>) -> (r: Result<ParsedClientData, Error>)
    ensures
        r is Ok ==> client_data_fields(client_data_json@) == Some(
            (r->Ok_0.type_field@, r->Ok_0.challenge@),
        ),
        r is Err ==> r->Err_0 == Error::ClientDataParseError && client_data_fields(
            client_data_json@,
        ) is None,
{
    if client_data_json.len() > MAX_CLIENT_DATA_JSON_LEN {
        return Err(Error::ClientDataParseError);
    }
    let i = skip_ws(client_data_json, 0);
    if i >= client_data_json.len() || client_data_json[i] != 123 {
        return Err(Error::ClientDataParseError);
    }
    match scan_fields(client_data_json, i + 1, None, None) {
        Some((Some(t), Some(c))) => Ok(ParsedClientData { type_field: t, challenge: c }),
        _ => Err(Error::ClientDataParseError),
    }
}

} // verus!
