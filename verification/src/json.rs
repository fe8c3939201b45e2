use vstd::prelude::*;

verus! {

/// JSON insignificant whitespace.
pub open spec fn is_ws(b: u8) -> bool {
    b == 32 || b == 9 || b == 10 || b == 13
}

/// An ASCII decimal digit.
pub open spec fn is_digit(b: u8) -> bool {
    48 <= b <= 57
}

/// The first position at or after `i` that holds no whitespace.
pub open spec fn spec_skip_ws(s: Seq<u8>, i: int) -> int
    decreases s.len() - i,
{
    if i < 0 || i >= s.len() {
        i
    } else if is_ws(s[i]) {
        spec_skip_ws(s, i + 1)
    } else {
        i
    }
}

/// The first position at or after `i` that holds no digit.
pub open spec fn spec_skip_digits(s: Seq<u8>, i: int) -> int
    decreases s.len() - i,
{
    if i < 0 || i >= s.len() {
        i
    } else if is_digit(s[i]) {
        spec_skip_digits(s, i + 1)
    } else {
        i
    }
}

/// An ASCII hex digit, either case.
pub open spec fn is_hex(b: u8) -> bool {
    (48 <= b <= 57) || (97 <= b <= 102) || (65 <= b <= 70)
}

/// A single-character escape: the JSON short escapes after a backslash.
pub open spec fn is_short_escape(b: u8) -> bool {
    b == 34 || b == 92 || b == 47 || b == 98 || b == 102 || b == 110 || b == 114 || b == 116
}

/// Scan a string body beginning at `i` (just past the opening quote);
/// the result is the position just past the closing quote. Escapes are
/// accepted as JSON spells them; raw control characters are not.
pub open spec fn spec_skip_string(s: Seq<u8>, i: int) -> Option<int>
    decreases s.len() - i,
{
    if i < 0 || i >= s.len() {
        None
    } else if s[i] == 34 {
        Some(i + 1)
    } else if s[i] == 92 {
        if i + 2 <= s.len() && is_short_escape(s[i + 1]) {
            spec_skip_string(s, i + 2)
        } else if i + 6 <= s.len() && s[i + 1] == 117 && is_hex(s[i + 2]) && is_hex(s[i + 3])
            && is_hex(s[i + 4]) && is_hex(s[i + 5]) {
            spec_skip_string(s, i + 6)
        } else {
            None
        }
    } else if s[i] < 32 {
        None
    } else {
        spec_skip_string(s, i + 1)
    }
}

/// Scan one JSON value beginning at `i`: an object, an array, a string, a
/// number, or one of the three literals. `fuel` bounds the recursion; the
/// parser hands in more than any input can use up.
pub open spec fn spec_skip_value(s: Seq<u8>, i: int, fuel: nat) -> Option<int>
    decreases fuel,
{
    if fuel == 0 || i < 0 || i >= s.len() {
        None
    } else if s[i] == 34 {
        spec_skip_string(s, i + 1)
    } else if s[i] == 123 {
        spec_skip_members(s, i + 1, true, (fuel - 1) as nat)
    } else if s[i] == 91 {
        spec_skip_elems(s, i + 1, true, (fuel - 1) as nat)
    } else if s[i] == 116 {
        if i + 4 <= s.len() && s[i + 1] == 114 && s[i + 2] == 117 && s[i + 3] == 101 {
            Some(i + 4)
        } else {
            None
        }
    } else if s[i] == 102 {
        if i + 5 <= s.len() && s[i + 1] == 97 && s[i + 2] == 108 && s[i + 3] == 115 && s[i + 4]
            == 101 {
            Some(i + 5)
        } else {
            None
        }
    } else if s[i] == 110 {
        if i + 4 <= s.len() && s[i + 1] == 117 && s[i + 2] == 108 && s[i + 3] == 108 {
            Some(i + 4)
        } else {
            None
        }
    } else if s[i] == 45 || is_digit(s[i]) {
        let st = if s[i] == 45 {
            i + 1
        } else {
            i
        };
        let e = spec_skip_digits(s, st);
        if e == st {
            None
        } else {
            spec_skip_number_tail(s, e)
        }
    } else {
        None
    }
}

/// Scan what may follow a number's integer digits: an optional fraction
/// and an optional exponent, each with at least one digit.
pub open spec fn spec_skip_number_tail(s: Seq<u8>, e: int) -> Option<int> {
    if 0 <= e < s.len() && s[e] == 46 {
        let f = spec_skip_digits(s, e + 1);
        if f == e + 1 {
            None
        } else {
            spec_skip_exponent(s, f)
        }
    } else {
        spec_skip_exponent(s, e)
    }
}

/// Scan an optional exponent beginning at `e`.
pub open spec fn spec_skip_exponent(s: Seq<u8>, e: int) -> Option<int> {
    if 0 <= e < s.len() && (s[e] == 101 || s[e] == 69) {
        let m = if e + 1 < s.len() && (s[e + 1] == 43 || s[e + 1] == 45) {
            e + 2
        } else {
            e + 1
        };
        let g = spec_skip_digits(s, m);
        if g == m {
            None
        } else {
            Some(g)
        }
    } else {
        Some(e)
    }
}

/// Scan the members of an object, starting just inside the braces or just
/// after a member; `first` says whether no member has been consumed yet.
pub open spec fn spec_skip_members(s: Seq<u8>, i: int, first: bool, fuel: nat) -> Option<int>
    decreases fuel,
{
    if fuel == 0 || i < 0 || i >= s.len() {
        None
    } else if is_ws(s[i]) {
        spec_skip_members(s, i + 1, first, (fuel - 1) as nat)
    } else if s[i] == 125 {
        Some(i + 1)
    } else if !first && s[i] != 44 {
        None
    } else {
        let j = if first {
            i
        } else {
            spec_skip_ws(s, i + 1)
        };
        if j >= s.len() || s[j] != 34 {
            None
        } else {
            match spec_skip_string(s, j + 1) {
                None => None,
                Some(ke) => {
                    let c = spec_skip_ws(s, ke);
                    if c >= s.len() || s[c] != 58 {
                        None
                    } else {
                        match spec_skip_value(s, spec_skip_ws(s, c + 1), (fuel - 1) as nat) {
                            None => None,
                            Some(e) => spec_skip_members(s, e, false, (fuel - 1) as nat),
                        }
                    }
                },
            }
        }
    }
}

/// Scan the elements of an array, starting just inside the brackets or
/// just after an element.
pub open spec fn spec_skip_elems(s: Seq<u8>, i: int, first: bool, fuel: nat) -> Option<int>
    decreases fuel,
{
    if fuel == 0 || i < 0 || i >= s.len() {
        None
    } else if is_ws(s[i]) {
        spec_skip_elems(s, i + 1, first, (fuel - 1) as nat)
    } else if s[i] == 93 {
        Some(i + 1)
    } else if first {
        match spec_skip_value(s, i, (fuel - 1) as nat) {
            None => None,
            Some(e) => spec_skip_elems(s, e, false, (fuel - 1) as nat),
        }
    } else if s[i] == 44 {
        match spec_skip_value(s, spec_skip_ws(s, i + 1), (fuel - 1) as nat) {
            None => None,
            Some(e) => spec_skip_elems(s, e, false, (fuel - 1) as nat),
        }
    } else {
        None
    }
}

/// The position of the value of the first member named `key`, in the
/// object whose brace is at `obj`; the position has whitespace skipped.
/// `None` when the object is malformed or holds no such member.
pub open spec fn spec_find_field(s: Seq<u8>, i: int, first: bool, key: Seq<u8>, fuel: nat) -> Option<
    int,
>
    decreases fuel,
{
    if fuel == 0 || i < 0 || i >= s.len() {
        None
    } else if is_ws(s[i]) {
        spec_find_field(s, i + 1, first, key, (fuel - 1) as nat)
    } else if s[i] == 125 {
        None
    } else if !first && s[i] != 44 {
        None
    } else {
        let j = if first {
            i
        } else {
            spec_skip_ws(s, i + 1)
        };
        if j >= s.len() || s[j] != 34 {
            None
        } else {
            match spec_skip_string(s, j + 1) {
                None => None,
                Some(ke) => {
                    let c = spec_skip_ws(s, ke);
                    if c >= s.len() || s[c] != 58 {
                        None
                    } else {
                        let v = spec_skip_ws(s, c + 1);
                        if s.subrange(j + 1, ke - 1) == key {
                            Some(v)
                        } else {
                            match spec_skip_value(s, v, (fuel - 1) as nat) {
                                None => None,
                                Some(e) => spec_find_field(s, e, false, key, (fuel - 1) as nat),
                            }
                        }
                    }
                },
            }
        }
    }
}

/// The fuel that the parser hands to the scanners: generous, since every
/// recursive step either advances in the input or descends past a byte.
pub open spec fn spec_fuel(s: Seq<u8>) -> nat {
    2 * s.len() + 8
}

/// The bytes of the string value of member `key` of the object at `obj`,
/// exactly as written, escapes unexpanded; `None` when the object is
/// malformed, the member is missing, or its value is not a string.
pub open spec fn spec_string_field(s: Seq<u8>, obj: int, key: Seq<u8>) -> Option<Seq<u8>> {
    match spec_find_field(s, obj + 1, true, key, spec_fuel(s)) {
        None => None,
        Some(v) => {
            if v < s.len() && s[v] == 34 {
                match spec_skip_string(s, v + 1) {
                    None => None,
                    Some(e) => Some(s.subrange(v + 1, e - 1)),
                }
            } else {
                None
            }
        },
    }
}

/// The position of the value of member `key` of the object at `obj`.
pub open spec fn spec_field_pos(s: Seq<u8>, obj: int, key: Seq<u8>) -> Option<int> {
    spec_find_field(s, obj + 1, true, key, spec_fuel(s))
}

/// `spec_skip_ws`, executably.
pub fn skip_ws(s: &Vec<u8>, i: usize) -> (r: usize)
    requires
        i <= s@.len(),
    ensures
        r == spec_skip_ws(s@, i as int),
        i <= r <= s@.len(),
    decreases s@.len() - i,
{
    if i < s.len() && (s[i] == 32 || s[i] == 9 || s[i] == 10 || s[i] == 13) {
        skip_ws(s, i + 1)
    } else {
        i
    }
}

/// `spec_skip_digits`, executably.
pub fn skip_digits(s: &Vec<u8>, i: usize) -> (r: usize)
    requires
        i <= s@.len(),
    ensures
        r == spec_skip_digits(s@, i as int),
        i <= r <= s@.len(),
    decreases s@.len() - i,
{
    if i < s.len() && 48 <= s[i] && s[i] <= 57 {
        skip_digits(s, i + 1)
    } else {
        i
    }
}

/// `spec_skip_string`, executably.
pub fn skip_string(s: &Vec<u8>, i: usize) -> (r: Option<usize>)
    requires
        i <= s@.len(),
    ensures
        match r {
            Some(e) => spec_skip_string(s@, i as int) == Some(e as int) && i < e <= s@.len(),
            None => spec_skip_string(s@, i as int) is None,
        },
    decreases s@.len() - i,
{
    if i >= s.len() {
        None
    } else if s[i] == 34 {
        Some(i + 1)
    } else if s[i] == 92 {
        if s.len() - i >= 2 && short_escape(s[i + 1]) {
            skip_string(s, i + 2)
        } else if s.len() - i >= 6 && s[i + 1] == 117 && hex_digit(s[i + 2]) && hex_digit(
            s[i + 3],
        ) && hex_digit(s[i + 4]) && hex_digit(s[i + 5]) {
            skip_string(s, i + 6)
        } else {
            None
        }
    } else if s[i] < 32 {
        None
    } else {
        skip_string(s, i + 1)
    }
}

/// `is_hex`, executably.
pub fn hex_digit(b: u8) -> (r: bool)
    ensures
        r == is_hex(b),
{
    (48 <= b && b <= 57) || (97 <= b && b <= 102) || (65 <= b && b <= 70)
}

/// `is_short_escape`, executably.
pub fn short_escape(b: u8) -> (r: bool)
    ensures
        r == is_short_escape(b),
{
    b == 34 || b == 92 || b == 47 || b == 98 || b == 102 || b == 110 || b == 114 || b == 116
}

/// `spec_skip_value`, executably.
pub fn skip_value(s: &Vec<u8>, i: usize, fuel: usize) -> (r: Option<usize>)
    requires
        i <= s@.len(),
    ensures
        match r {
            Some(e) => spec_skip_value(s@, i as int, fuel as nat) == Some(e as int) && e <= s@.len(),
            None => spec_skip_value(s@, i as int, fuel as nat) is None,
        },
    decreases fuel,
{
    if fuel == 0 || i >= s.len() {
        None
    } else if s[i] == 34 {
        skip_string(s, i + 1)
    } else if s[i] == 123 {
        skip_members(s, i + 1, true, fuel - 1)
    } else if s[i] == 91 {
        skip_elems(s, i + 1, true, fuel - 1)
    } else if s[i] == 116 {
        if s.len() - i >= 4 && s[i + 1] == 114 && s[i + 2] == 117 && s[i + 3] == 101 {
            Some(i + 4)
        } else {
            None
        }
    } else if s[i] == 102 {
        if s.len() - i >= 5 && s[i + 1] == 97 && s[i + 2] == 108 && s[i + 3] == 115 && s[i + 4]
            == 101 {
            Some(i + 5)
        } else {
            None
        }
    } else if s[i] == 110 {
        if s.len() - i >= 4 && s[i + 1] == 117 && s[i + 2] == 108 && s[i + 3] == 108 {
            Some(i + 4)
        } else {
            None
        }
    } else if s[i] == 45 || (48 <= s[i] && s[i] <= 57) {
        let st: usize = if s[i] == 45 {
            i + 1
        } else {
            i
        };
        let e = skip_digits(s, st);
        if e == st {
            None
        } else {
            skip_number_tail(s, e)
        }
    } else {
        None
    }
}

/// `spec_skip_number_tail`, executably.
pub fn skip_number_tail(s: &Vec<u8>, e: usize) -> (r: Option<usize>)
    requires
        e <= s@.len(),
    ensures
        match r {
            Some(g) => spec_skip_number_tail(s@, e as int) == Some(g as int) && g <= s@.len(),
            None => spec_skip_number_tail(s@, e as int) is None,
        },
{
    if e < s.len() && s[e] == 46 {
        let f = skip_digits(s, e + 1);
        if f == e + 1 {
            None
        } else {
            skip_exponent(s, f)
        }
    } else {
        skip_exponent(s, e)
    }
}

/// `spec_skip_exponent`, executably.
pub fn skip_exponent(s: &Vec<u8>, e: usize) -> (r: Option<usize>)
    requires
        e <= s@.len(),
    ensures
        match r {
            Some(g) => spec_skip_exponent(s@, e as int) == Some(g as int) && g <= s@.len(),
            None => spec_skip_exponent(s@, e as int) is None,
        },
{
    if e < s.len() && (s[e] == 101 || s[e] == 69) {
        let m: usize = if e + 1 < s.len() && (s[e + 1] == 43 || s[e + 1] == 45) {
            e + 2
        } else {
            e + 1
        };
        let g = skip_digits(s, m);
        if g == m {
            None
        } else {
            Some(g)
        }
    } else {
        Some(e)
    }
}

/// `spec_skip_members`, executably.
pub fn skip_members(s: &Vec<u8>, i: usize, first: bool, fuel: usize) -> (r: Option<usize>)
    requires
        i <= s@.len(),
    ensures
        match r {
            Some(e) => spec_skip_members(s@, i as int, first, fuel as nat) == Some(e as int) && e
                <= s@.len(),
            None => spec_skip_members(s@, i as int, first, fuel as nat) is None,
        },
    decreases fuel,
{
    if fuel == 0 || i >= s.len() {
        None
    } else if s[i] == 32 || s[i] == 9 || s[i] == 10 || s[i] == 13 {
        skip_members(s, i + 1, first, fuel - 1)
    } else if s[i] == 125 {
        Some(i + 1)
    } else if !first && s[i] != 44 {
        None
    } else {
        let j: usize = if first {
            i
        } else {
            skip_ws(s, i + 1)
        };
        if j >= s.len() || s[j] != 34 {
            None
        } else {
            match skip_string(s, j + 1) {
                None => None,
                Some(ke) => {
                    let c = skip_ws(s, ke);
                    if c >= s.len() || s[c] != 58 {
                        None
                    } else {
                        let v = skip_ws(s, c + 1);
                        match skip_value(s, v, fuel - 1) {
                            None => None,
                            Some(e) => skip_members(s, e, false, fuel - 1),
                        }
                    }
                },
            }
        }
    }
}

/// `spec_skip_elems`, executably.
pub fn skip_elems(s: &Vec<u8>, i: usize, first: bool, fuel: usize) -> (r: Option<usize>)
    requires
        i <= s@.len(),
    ensures
        match r {
            Some(e) => spec_skip_elems(s@, i as int, first, fuel as nat) == Some(e as int) && e
                <= s@.len(),
            None => spec_skip_elems(s@, i as int, first, fuel as nat) is None,
        },
    decreases fuel,
{
    if fuel == 0 || i >= s.len() {
        None
    } else if s[i] == 32 || s[i] == 9 || s[i] == 10 || s[i] == 13 {
        skip_elems(s, i + 1, first, fuel - 1)
    } else if s[i] == 93 {
        Some(i + 1)
    } else if first {
        match skip_value(s, i, fuel - 1) {
            None => None,
            Some(e) => skip_elems(s, e, false, fuel - 1),
        }
    } else if s[i] == 44 {
        let v = skip_ws(s, i + 1);
        match skip_value(s, v, fuel - 1) {
            None => None,
            Some(e) => skip_elems(s, e, false, fuel - 1),
        }
    } else {
        None
    }
}

/// `spec_find_field`, executably.
pub fn find_field(s: &Vec<u8>, i: usize, first: bool, key: &Vec<u8>, fuel: usize) -> (r: Option<
    usize,
>)
    requires
        i <= s@.len(),
    ensures
        match r {
            Some(v) => spec_find_field(s@, i as int, first, key@, fuel as nat) == Some(v as int)
                && v <= s@.len(),
            None => spec_find_field(s@, i as int, first, key@, fuel as nat) is None,
        },
    decreases fuel,
{
    if fuel == 0 || i >= s.len() {
        None
    } else if s[i] == 32 || s[i] == 9 || s[i] == 10 || s[i] == 13 {
        find_field(s, i + 1, first, key, fuel - 1)
    } else if s[i] == 125 {
        None
    } else if !first && s[i] != 44 {
        None
    } else {
        let j: usize = if first {
            i
        } else {
            skip_ws(s, i + 1)
        };
        if j >= s.len() || s[j] != 34 {
            None
        } else {
            match skip_string(s, j + 1) {
                None => None,
                Some(ke) => {
                    let c = skip_ws(s, ke);
                    if c >= s.len() || s[c] != 58 {
                        None
                    } else {
                        let v = skip_ws(s, c + 1);
                        if range_eq(s, j + 1, ke - 1, key) {
                            Some(v)
                        } else {
                            match skip_value(s, v, fuel - 1) {
                                None => None,
                                Some(e) => find_field(s, e, false, key, fuel - 1),
                            }
                        }
                    }
                },
            }
        }
    }
}

/// Whether `s[a..b]` holds exactly the bytes of `key`.
pub fn range_eq(s: &Vec<u8>, a: usize, b: usize, key: &Vec<u8>) -> (r: bool)
    requires
        a <= b <= s@.len(),
    ensures
        r == (s@.subrange(a as int, b as int) == key@),
{
    if b - a != key.len() {
        assert(s@.subrange(a as int, b as int).len() != key@.len());
        return false;
    }
    let n: usize = key.len();
    let mut k: usize = 0;
    while k < n
        invariant
            b == a + n,
            b <= s@.len(),
            n == key@.len(),
            k <= n,
            forall|j: int| 0 <= j < k ==> s@[a + j] == key@[j],
        decreases n - k,
    {
        if s[a + k] != key[k] {
            assert(s@.subrange(a as int, b as int)[k as int] != key@[k as int]);
            return false;
        }
        k = k + 1;
    }
    assert(s@.subrange(a as int, b as int) =~= key@);
    true
}

/// The bytes `s[a..b]`, as a fresh vector.
pub fn sub_bytes(s: &Vec<u8>, a: usize, b: usize) -> (r: Vec<u8>)
    requires
        a <= b <= s@.len(),
    ensures
        r@ == s@.subrange(a as int, b as int),
{
    let mut out: Vec<u8> = Vec::new();
    let mut k: usize = a;
    while k < b
        invariant
            a <= k <= b <= s@.len(),
            out@ == s@.subrange(a as int, k as int),
        decreases b - k,
    {
        out.push(s[k]);
        k = k + 1;
        assert(out@ =~= s@.subrange(a as int, k as int));
    }
    out
}

/// `spec_string_field`, executably.
pub fn string_field(s: &Vec<u8>, obj: usize, key: &Vec<u8>) -> (r: Option<Vec<u8>>)
    requires
        obj < s@.len(),
        2 * s@.len() + 8 <= usize::MAX,
    ensures
        match r {
            Some(v) => spec_string_field(s@, obj as int, key@) == Some(v@),
            None => spec_string_field(s@, obj as int, key@) is None,
        },
{
    let fuel: usize = parse_fuel(s);
    match find_field(s, obj + 1, true, key, fuel) {
        None => None,
        Some(v) => {
            if v < s.len() && s[v] == 34 {
                match skip_string(s, v + 1) {
                    None => None,
                    Some(e) => Some(sub_bytes(s, v + 1, e - 1)),
                }
            } else {
                None
            }
        },
    }
}

/// `spec_field_pos`, executably.
pub fn field_pos(s: &Vec<u8>, obj: usize, key: &Vec<u8>) -> (r: Option<usize>)
    requires
        obj < s@.len(),
        2 * s@.len() + 8 <= usize::MAX,
    ensures
        match r {
            Some(v) => spec_field_pos(s@, obj as int, key@) == Some(v as int) && v <= s@.len(),
            None => spec_field_pos(s@, obj as int, key@) is None,
        },
{
    let fuel: usize = parse_fuel(s);
    find_field(s, obj + 1, true, key, fuel)
}

/// The scanners' fuel, `spec_fuel`, executably.
pub fn parse_fuel(s: &Vec<u8>) -> (r: usize)
    requires
        2 * s@.len() + 8 <= usize::MAX,
    ensures
        r == spec_fuel(s@),
{
    2 * s.len() + 8
}

} // verus!
