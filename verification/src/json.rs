//! JSON documents as the server handles them: telemetry, state and their
//! differences, and the switch values as Home Assistant writes them.
use vstd::prelude::*;
use vstd::string::StringExecFns;

verus! {

/// A JSON value. A number is held by its text; an object holds its members
/// in order, by key.
#[derive(Debug)]
pub enum JsonValue {
    Null,
    Bool(bool),
    Number(String),
    Str(String),
    Array(Vec<JsonValue>),
    Object(Vec<(String, JsonValue)>),
}

/// Whether number text `x` is a zero float: `0.0` or `-0.0` (as
/// `serde_json` writes the two zeros).
pub open spec fn is_float_zero(x: Seq<char>) -> bool {
    x == "0.0"@ || x == "-0.0"@
}

/// Whether number texts `x` and `y` are the same number: the same text, or
/// both zero floats (`-0.0` equals `0.0`, as floats compare).
pub open spec fn number_same(x: Seq<char>, y: Seq<char>) -> bool {
    x == y || (is_float_zero(x) && is_float_zero(y))
}

/// Whether `a` and `b` are the same JSON value.
pub open spec fn json_same(a: JsonValue, b: JsonValue) -> bool
    decreases a,
{
    match a {
        JsonValue::Null => b is Null,
        JsonValue::Bool(x) => b matches JsonValue::Bool(y) && x == y,
        JsonValue::Number(x) => b matches JsonValue::Number(y) && number_same(x@, y@),
        JsonValue::Str(x) => b matches JsonValue::Str(y) && x@ == y@,
        JsonValue::Array(x) => b matches JsonValue::Array(y) && x@.len() == y@.len() && forall|i: int|
            0 <= i < x@.len() ==> json_same(#[trigger] x@[i], y@[i]),
        JsonValue::Object(x) => b matches JsonValue::Object(y) && x@.len() == y@.len() && forall|i: int|
            0 <= i < x@.len() ==> x@[i].0@ == y@[i].0@ && json_same((#[trigger] x@[i]).1, y@[i].1),
    }
}


fn is_zero_text(x: &String) -> (r: bool)
    ensures
        r == is_float_zero(x@),
{
    *x == String::from_str("0.0") || *x == String::from_str("-0.0")
}

/// Whether `a` and `b` are the same JSON value.
#[verifier::loop_isolation(false)]
pub fn json_eq(a: &JsonValue, b: &JsonValue) -> (r: bool)
    ensures
        r == json_same(*a, *b),
    decreases a,
{
    match a {
        JsonValue::Null => {
            let r = match b {
                JsonValue::Null => true,
                _ => false,
            };
            assert(json_same(*a, *b) == (*b is Null));
            r
        },
        JsonValue::Bool(x) => match b {
            JsonValue::Bool(y) => *x == *y,
            _ => false,
        },
        JsonValue::Number(x) => match b {
            JsonValue::Number(y) => *x == *y || (is_zero_text(x) && is_zero_text(y)),
            _ => false,
        },
        JsonValue::Str(x) => match b {
            JsonValue::Str(y) => *x == *y,
            _ => false,
        },
        JsonValue::Array(x) => match b {
            JsonValue::Array(y) => {
                if x.len() != y.len() {
                    return false;
                }
                let mut i: usize = 0;
                while i < x.len()
                    invariant
                        i <= x@.len(),
                        x@.len() == y@.len(),
                        forall|j: int| 0 <= j < i ==> json_same(#[trigger] x@[j], y@[j]),
                    decreases x@.len() - i,
                {
                    proof {
                        assert(decreases_to!(*a => *x));
                        assert(decreases_to!(*x => x@));
                        assert(decreases_to!(x@ => x@[i as int]));
                    }
                    if !json_eq(&x[i], &y[i]) {
                        return false;
                    }
                    i += 1;
                }
                true
            },
            _ => false,
        },
        JsonValue::Object(x) => match b {
            JsonValue::Object(y) => {
                if x.len() != y.len() {
                    return false;
                }
                let mut i: usize = 0;
                while i < x.len()
                    invariant
                        i <= x@.len(),
                        x@.len() == y@.len(),
                        forall|j: int|
                            0 <= j < i ==> x@[j].0@ == y@[j].0@ && json_same((#[trigger] x@[j]).1, y@[j].1),
                    decreases x@.len() - i,
                {
                    proof {
                        assert(decreases_to!(*a => *x));
                        assert(decreases_to!(*x => x@));
                        assert(decreases_to!(x@ => x@[i as int]));
                        assert(decreases_to!(x@[i as int] => x@[i as int].1));
                    }
                    if !(x[i].0 == y[i].0) || !json_eq(&x[i].1, &y[i].1) {
                        return false;
                    }
                    i += 1;
                }
                true
            },
            _ => false,
        },
    }
}


/// A copy of `a`.
#[verifier::loop_isolation(false)]
pub fn json_clone(a: &JsonValue) -> (r: JsonValue)
    ensures
        json_same(r, *a),
    decreases a,
{
    match a {
        JsonValue::Null => JsonValue::Null,
        JsonValue::Bool(x) => JsonValue::Bool(*x),
        JsonValue::Number(x) => JsonValue::Number(x.clone()),
        JsonValue::Str(x) => JsonValue::Str(x.clone()),
        JsonValue::Array(x) => {
            let mut out: Vec<JsonValue> = Vec::new();
            let mut i: usize = 0;
            while i < x.len()
                invariant
                    i <= x@.len(),
                    out@.len() == i,
                    forall|j: int| 0 <= j < i ==> json_same(#[trigger] out@[j], x@[j]),
                decreases x@.len() - i,
            {
                proof {
                    assert(decreases_to!(*a => *x));
                    assert(decreases_to!(*x => x@));
                    assert(decreases_to!(x@ => x@[i as int]));
                }
                out.push(json_clone(&x[i]));
                i += 1;
            }
            JsonValue::Array(out)
        },
        JsonValue::Object(x) => {
            let mut out: Vec<(String, JsonValue)> = Vec::new();
            let mut i: usize = 0;
            while i < x.len()
                invariant
                    i <= x@.len(),
                    out@.len() == i,
                    forall|j: int|
                        0 <= j < i ==> (#[trigger] out@[j]).0@ == x@[j].0@ && json_same(out@[j].1, x@[j].1),
                decreases x@.len() - i,
            {
                proof {
                    assert(decreases_to!(*a => *x));
                    assert(decreases_to!(*x => x@));
                    assert(decreases_to!(x@ => x@[i as int]));
                    assert(decreases_to!(x@[i as int] => x@[i as int].1));
                }
                out.push((x[i].0.clone(), json_clone(&x[i].1)));
                i += 1;
            }
            JsonValue::Object(out)
        },
    }
}

/// The value of member `k` of an object's members `m`.
pub open spec fn member(m: Seq<(String, JsonValue)>, k: Seq<char>) -> Option<JsonValue>
    decreases m.len(),
{
    if m.len() == 0 {
        None
    } else if m[0].0@ == k {
        Some(m[0].1)
    } else {
        member(m.drop_first(), k)
    }
}

/// Whether member `e` of a new object is a change from the old object's
/// members `old`: the old object lacks it or holds another value for it.
pub open spec fn changed(old: Seq<(String, JsonValue)>, e: (String, JsonValue)) -> bool {
    match member(old, e.0@) {
        None => true,
        Some(v) => !json_same(e.1, v),
    }
}

/// Whether objects' members `a` and `b` are the same, member by member.
pub open spec fn members_same(a: Seq<(String, JsonValue)>, b: Seq<(String, JsonValue)>) -> bool {
    &&& a.len() == b.len()
    &&& forall|i: int| 0 <= i < a.len() ==> (#[trigger] a[i]).0@ == b[i].0@ && json_same(a[i].1, b[i].1)
}

/// Whether `r` is the difference from `old` to `new`: between two objects,
/// the members of `new` that changed (`null` if none did); otherwise `new`,
/// or `null` where both are the same.
pub open spec fn is_diff(old: JsonValue, new: JsonValue, r: JsonValue) -> bool {
    match (old, new) {
        (JsonValue::Object(o), JsonValue::Object(n)) => {
            let kept = n@.filter(|e: (String, JsonValue)| changed(o@, e));
            if kept.len() == 0 {
                r is Null
            } else {
                r matches JsonValue::Object(rs) && members_same(rs@, kept)
            }
        },
        _ => if json_same(old, new) {
            r is Null
        } else {
            json_same(r, new)
        },
    }
}

/// The value of member `k` of `m`, where there is one.
fn get_member<'a>(m: &'a Vec<(String, JsonValue)>, k: &String) -> (r: Option<&'a JsonValue>)
    ensures
        match member(m@, k@) {
            None => r is None,
            Some(v) => r matches Some(x) && *x == v,
        },
{
    let mut i: usize = 0;
    assert(m@.skip(0) =~= m@);
    while i < m.len()
        invariant
            i <= m@.len(),
            member(m@, k@) == member(m@.skip(i as int), k@),
        decreases m@.len() - i,
    {
        proof {
            assert(m@.skip(i as int)[0] == m@[i as int]);
            assert(m@.skip(i as int).drop_first() =~= m@.skip(i + 1));
        }
        if m[i].0 == *k {
            return Some(&m[i].1);
        }
        i += 1;
    }
    assert(m@.skip(i as int) =~= Seq::<(String, JsonValue)>::empty());
    None
}

/// The difference from `old` to `new`.
pub fn json_diff(old: &JsonValue, new: &JsonValue) -> (r: JsonValue)
    ensures
        is_diff(*old, *new, r),
{
    match (old, new) {
        (JsonValue::Object(o), JsonValue::Object(n)) => {
            let ghost pred = |e: (String, JsonValue)| changed(o@, e);
            let mut out: Vec<(String, JsonValue)> = Vec::new();
            let mut i: usize = 0;
            while i < n.len()
                invariant
                    i <= n@.len(),
                    pred == (|e: (String, JsonValue)| changed(o@, e)),
                    members_same(out@, n@.subrange(0, i as int).filter(pred)),
                decreases n@.len() - i,
            {
                let keep = match get_member(o, &n[i].0) {
                    Some(v) => !json_eq(&n[i].1, v),
                    None => true,
                };
                let ghost before = out@;
                if keep {
                    out.push((n[i].0.clone(), json_clone(&n[i].1)));
                }
                proof {
                    n@.subrange(0, i as int).lemma_filter_push(n@[i as int], pred);
                    assert(n@.subrange(0, i + 1) =~= n@.subrange(0, i as int).push(n@[i as int]));
                    assert(keep == pred(n@[i as int]));
                    let f = n@.subrange(0, i + 1).filter(pred);
                    if keep {
                        assert(f == n@.subrange(0, i as int).filter(pred).push(n@[i as int]));
                        assert forall|j: int| 0 <= j < out@.len() implies (#[trigger] out@[j]).0@ == f[j].0@
                            && json_same(out@[j].1, f[j].1) by {
                            if j < before.len() {
                                assert(out@[j] == before[j]);
                            }
                        }
                    } else {
                        assert(f == n@.subrange(0, i as int).filter(pred));
                    }
                }
                i += 1;
            }
            assert(n@.subrange(0, n@.len() as int) =~= n@);
            if out.len() == 0 {
                JsonValue::Null
            } else {
                JsonValue::Object(out)
            }
        },
        _ => {
            if json_eq(old, new) {
                JsonValue::Null
            } else {
                json_clone(new)
            }
        },
    }
}


/// Whether `r` is `a` with every boolean, at any depth, written as `"ON"`
/// (true) or `"OFF"` (false).
pub open spec fn is_on_off(a: JsonValue, r: JsonValue) -> bool
    decreases a,
{
    match a {
        JsonValue::Bool(b) => r matches JsonValue::Str(s) && s@ == (if b {
            "ON"@
        } else {
            "OFF"@
        }),
        JsonValue::Array(x) => r matches JsonValue::Array(y) && y@.len() == x@.len() && forall|i: int|
            0 <= i < x@.len() ==> is_on_off(#[trigger] x@[i], y@[i]),
        JsonValue::Object(x) => r matches JsonValue::Object(y) && y@.len() == x@.len() && forall|i: int|
            0 <= i < x@.len() ==> y@[i].0@ == x@[i].0@ && is_on_off((#[trigger] x@[i]).1, y@[i].1),
        _ => json_same(r, a),
    }
}

/// `v` with every boolean written as `"ON"` or `"OFF"`, as Home Assistant
/// reads switch states.
#[verifier::loop_isolation(false)]
pub fn bools_to_strings(v: &JsonValue) -> (r: JsonValue)
    ensures
        is_on_off(*v, r),
    decreases v,
{
    match v {
        JsonValue::Bool(true) => JsonValue::Str(String::from_str("ON")),
        JsonValue::Bool(false) => JsonValue::Str(String::from_str("OFF")),
        JsonValue::Array(x) => {
            let mut out: Vec<JsonValue> = Vec::new();
            let mut i: usize = 0;
            while i < x.len()
                invariant
                    i <= x@.len(),
                    out@.len() == i,
                    forall|j: int| 0 <= j < i ==> is_on_off(#[trigger] x@[j], out@[j]),
                decreases x@.len() - i,
            {
                proof {
                    assert(decreases_to!(*v => *x));
                    assert(decreases_to!(*x => x@));
                    assert(decreases_to!(x@ => x@[i as int]));
                }
                out.push(bools_to_strings(&x[i]));
                i += 1;
            }
            JsonValue::Array(out)
        },
        JsonValue::Object(x) => {
            let mut out: Vec<(String, JsonValue)> = Vec::new();
            let mut i: usize = 0;
            while i < x.len()
                invariant
                    i <= x@.len(),
                    out@.len() == i,
                    forall|j: int|
                        0 <= j < i ==> out@[j].0@ == x@[j].0@ && is_on_off((#[trigger] x@[j]).1, out@[j].1),
                decreases x@.len() - i,
            {
                proof {
                    assert(decreases_to!(*v => *x));
                    assert(decreases_to!(*x => x@));
                    assert(decreases_to!(x@ => x@[i as int]));
                    assert(decreases_to!(x@[i as int] => x@[i as int].1));
                }
                out.push((x[i].0.clone(), bools_to_strings(&x[i].1)));
                i += 1;
            }
            JsonValue::Object(out)
        },
        _ => json_clone(v),
    }
}

/// Whether `r` is `a` with every string `"ON"` or `"OFF"`, at any depth,
/// read as the boolean true or false.
pub open spec fn is_from_on_off(a: JsonValue, r: JsonValue) -> bool
    decreases a,
{
    match a {
        JsonValue::Str(s) => if s@ == "ON"@ {
            r == JsonValue::Bool(true)
        } else if s@ == "OFF"@ {
            r == JsonValue::Bool(false)
        } else {
            json_same(r, a)
        },
        JsonValue::Array(x) => r matches JsonValue::Array(y) && y@.len() == x@.len() && forall|i: int|
            0 <= i < x@.len() ==> is_from_on_off(#[trigger] x@[i], y@[i]),
        JsonValue::Object(x) => r matches JsonValue::Object(y) && y@.len() == x@.len() && forall|i: int|
            0 <= i < x@.len() ==> y@[i].0@ == x@[i].0@ && is_from_on_off((#[trigger] x@[i]).1, y@[i].1),
        _ => json_same(r, a),
    }
}

/// `v` with every string `"ON"` or `"OFF"` read as a boolean, as a state
/// command from Home Assistant is taken.
#[verifier::loop_isolation(false)]
pub fn strings_to_bools(v: &JsonValue) -> (r: JsonValue)
    ensures
        is_from_on_off(*v, r),
    decreases v,
{
    match v {
        JsonValue::Str(s) => {
            if *s == String::from_str("ON") {
                JsonValue::Bool(true)
            } else if *s == String::from_str("OFF") {
                JsonValue::Bool(false)
            } else {
                JsonValue::Str(s.clone())
            }
        },
        JsonValue::Array(x) => {
            let mut out: Vec<JsonValue> = Vec::new();
            let mut i: usize = 0;
            while i < x.len()
                invariant
                    i <= x@.len(),
                    out@.len() == i,
                    forall|j: int| 0 <= j < i ==> is_from_on_off(#[trigger] x@[j], out@[j]),
                decreases x@.len() - i,
            {
                proof {
                    assert(decreases_to!(*v => *x));
                    assert(decreases_to!(*x => x@));
                    assert(decreases_to!(x@ => x@[i as int]));
                }
                out.push(strings_to_bools(&x[i]));
                i += 1;
            }
            JsonValue::Array(out)
        },
        JsonValue::Object(x) => {
            let mut out: Vec<(String, JsonValue)> = Vec::new();
            let mut i: usize = 0;
            while i < x.len()
                invariant
                    i <= x@.len(),
                    out@.len() == i,
                    forall|j: int|
                        0 <= j < i ==> out@[j].0@ == x@[j].0@ && is_from_on_off(
                            (#[trigger] x@[j]).1,
                            out@[j].1,
                        ),
                decreases x@.len() - i,
            {
                proof {
                    assert(decreases_to!(*v => *x));
                    assert(decreases_to!(*x => x@));
                    assert(decreases_to!(x@ => x@[i as int]));
                    assert(decreases_to!(x@[i as int] => x@[i as int].1));
                }
                out.push((x[i].0.clone(), strings_to_bools(&x[i].1)));
                i += 1;
            }
            JsonValue::Object(out)
        },
        _ => json_clone(v),
    }
}


/// Every value is the same as itself.
pub proof fn lemma_json_same_reflexive(a: JsonValue)
    ensures
        json_same(a, a),
    decreases a,
{
    match a {
        JsonValue::Array(x) => {
            assert forall|i: int| 0 <= i < x@.len() implies json_same(#[trigger] x@[i], x@[i]) by {
                assert(decreases_to!(a => x));
                assert(decreases_to!(x => x@));
                assert(decreases_to!(x@ => x@[i]));
                lemma_json_same_reflexive(x@[i]);
            }
        },
        JsonValue::Object(x) => {
            assert forall|i: int| 0 <= i < x@.len() implies x@[i].0@ == x@[i].0@ && json_same(
                (#[trigger] x@[i]).1,
                x@[i].1,
            ) by {
                assert(decreases_to!(a => x));
                assert(decreases_to!(x => x@));
                assert(decreases_to!(x@ => x@[i]));
                assert(decreases_to!(x@[i] => x@[i].1));
                lemma_json_same_reflexive(x@[i].1);
            }
        },
        _ => {},
    }
}

/// No two members of an object's members `m` share a key (as in every
/// object that serde_json's map gives).
pub open spec fn keys_unique(m: Seq<(String, JsonValue)>) -> bool {
    forall|i: int, j: int| 0 <= i < j < m.len() ==> (#[trigger] m[i]).0@ != (#[trigger] m[j]).0@
}

proof fn lemma_member_of_unique(m: Seq<(String, JsonValue)>, i: int)
    requires
        keys_unique(m),
        0 <= i < m.len(),
    ensures
        member(m, m[i].0@) == Some(m[i].1),
    decreases i,
{
    if i > 0 {
        assert(m[0].0@ != m[i].0@);
        let t = m.drop_first();
        assert(t[i - 1] == m[i]);
        assert forall|a: int, b: int| 0 <= a < b < t.len() implies (#[trigger] t[a]).0@ != (#[trigger] t[b]).0@ by {
            assert(t[a] == m[a + 1] && t[b] == m[b + 1]);
        }
        lemma_member_of_unique(t, i - 1);
    }
}

/// A value compared with itself has no difference: the difference is
/// `null`.
pub proof fn lemma_diff_of_same_is_null(v: JsonValue, r: JsonValue)
    requires
        v matches JsonValue::Object(m) ==> keys_unique(m@),
        is_diff(v, v, r),
    ensures
        r is Null,
{
    lemma_json_same_reflexive(v);
    match v {
        JsonValue::Object(m) => {
            let pred = |e: (String, JsonValue)| changed(m@, e);
            assert forall|i: int| 0 <= i < m@.len() implies !pred(#[trigger] m@[i]) by {
                lemma_member_of_unique(m@, i);
                lemma_json_same_reflexive(m@[i].1);
            }
            assert(m@.all(|x: (String, JsonValue)| !pred(x)));
            m@.lemma_all_neg_filter_empty(pred);
        },
        _ => {},
    }
}

/// Whether no string `"ON"` or `"OFF"` occurs in `a`.
pub open spec fn no_on_off(a: JsonValue) -> bool
    decreases a,
{
    match a {
        JsonValue::Str(s) => s@ != "ON"@ && s@ != "OFF"@,
        JsonValue::Array(x) => forall|i: int| 0 <= i < x@.len() ==> no_on_off(#[trigger] x@[i]),
        JsonValue::Object(x) => forall|i: int| 0 <= i < x@.len() ==> no_on_off((#[trigger] x@[i]).1),
        _ => true,
    }
}

/// Reading switch values back undoes writing them: a value in which no
/// string `"ON"` or `"OFF"` occurs comes back the same.
pub proof fn lemma_on_off_round_trip(a: JsonValue, w: JsonValue, r: JsonValue)
    requires
        no_on_off(a),
        is_on_off(a, w),
        is_from_on_off(w, r),
    ensures
        json_same(r, a),
    decreases a,
{
    match a {
        JsonValue::Bool(b) => {
            reveal_strlit("ON");
            reveal_strlit("OFF");
            assert("ON"@[1] != "OFF"@[1]);
        },
        JsonValue::Array(x) => {
            let y = w->Array_0;
            let z = r->Array_0;
            assert forall|i: int| 0 <= i < x@.len() implies json_same(#[trigger] z@[i], x@[i]) by {
                assert(decreases_to!(a => x));
                assert(decreases_to!(x => x@));
                assert(decreases_to!(x@ => x@[i]));
                assert(is_on_off(x@[i], y@[i]));
                assert(is_from_on_off(y@[i], z@[i]));
                lemma_on_off_round_trip(x@[i], y@[i], z@[i]);
            }
        },
        JsonValue::Object(x) => {
            let y = w->Object_0;
            let z = r->Object_0;
            assert forall|i: int| 0 <= i < x@.len() implies (#[trigger] z@[i]).0@ == x@[i].0@ && json_same(
                z@[i].1,
                x@[i].1,
            ) by {
                assert(decreases_to!(a => x));
                assert(decreases_to!(x => x@));
                assert(decreases_to!(x@ => x@[i]));
                assert(decreases_to!(x@[i] => x@[i].1));
                assert(is_on_off(x@[i].1, y@[i].1));
                assert(is_from_on_off(y@[i].1, z@[i].1));
                assert(z@[i].0@ == y@[i].0@);
                lemma_on_off_round_trip(x@[i].1, y@[i].1, z@[i].1);
            }
        },
        _ => {},
    }
}


/// Whether a device's reported state differs from its desired state; the
/// desired state is then sent to the device.
pub fn needs_state_sync(state: &JsonValue, desired: &JsonValue) -> (r: bool)
    ensures
        r == !json_same(*state, *desired),
{
    !json_eq(state, desired)
}


proof fn lemma_member_some(m: Seq<(String, JsonValue)>, k: Seq<char>)
    ensures
        member(m, k) matches Some(v) ==> exists|i: int| 0 <= i < m.len() && m[i].0@ == k && m[i].1 == v,
        member(m, k) is None ==> forall|i: int| 0 <= i < m.len() ==> (#[trigger] m[i]).0@ != k,
    decreases m.len(),
{
    if m.len() > 0 {
        let t = m.drop_first();
        lemma_member_some(t, k);
        if m[0].0@ != k {
            if member(t, k) is Some {
                let i = choose|i: int| 0 <= i < t.len() && t[i].0@ == k && t[i].1 == member(t, k)->0;
                assert(m[i + 1] == t[i]);
            } else {
                assert forall|i: int| 0 <= i < m.len() implies (#[trigger] m[i]).0@ != k by {
                    if i > 0 {
                        assert(m[i] == t[i - 1]);
                    }
                }
            }
        }
    }
}

/// The member `(k, v)` set in `m`: in place of the member with key `k`, or
/// added at the end.
fn set_member(m: &mut Vec<(String, JsonValue)>, k: String, v: JsonValue)
    requires
        keys_unique(old(m)@),
    ensures
        keys_unique(final(m)@),
        member(final(m)@, k@) == Some(v),
        forall|j: Seq<char>| j != k@ ==> member(final(m)@, j) == member(old(m)@, j),
        forall|a: int|
            0 <= a < final(m)@.len() ==> (#[trigger] final(m)@[a]).1 == v || old(m)@.contains(final(m)@[a]),
{
    let mut i: usize = 0;
    while i < m.len()
        invariant
            m@ == old(m)@,
            keys_unique(m@),
            i <= m@.len(),
            forall|j: int| 0 <= j < i ==> (#[trigger] m@[j]).0@ != k@,
        decreases m@.len() - i,
    {
        if m[i].0 == k {
            let ghost before = m@;
            let ghost kk = k@;
            m.set(i, (k, v));
            proof {
                assert forall|a: int, b: int| 0 <= a < b < m@.len() implies (#[trigger] m@[a]).0@ != (
                #[trigger] m@[b]).0@ by {
                    assert(before[a].0@ != before[b].0@);
                }
                lemma_member_of_unique(m@, i as int);
                assert forall|j: Seq<char>| j != kk implies member(m@, j) == member(before, j) by {
                    lemma_member_some(before, j);
                    lemma_member_some(m@, j);
                    if member(before, j) is Some {
                        let a = choose|a: int| 0 <= a < before.len() && before[a].0@ == j && before[a].1
                            == member(before, j)->0;
                        lemma_member_of_unique(before, a);
                        assert(m@[a] == before[a]);
                        lemma_member_of_unique(m@, a);
                    } else {
                        assert forall|a: int| 0 <= a < m@.len() implies (#[trigger] m@[a]).0@ != j by {
                            if a != i {
                                assert(m@[a] == before[a]);
                            }
                        }
                        if member(m@, j) is Some {
                            let a = choose|a: int| 0 <= a < m@.len() && m@[a].0@ == j && m@[a].1 == member(
                                m@,
                                j,
                            )->0;
                        }
                    }
                }
            }
            return ;
        }
        i += 1;
    }
    let ghost before = m@;
    let ghost kk = k@;
    m.push((k, v));
    proof {
        assert forall|a: int, b: int| 0 <= a < b < m@.len() implies (#[trigger] m@[a]).0@ != (
        #[trigger] m@[b]).0@ by {
            if b < before.len() {
                assert(m@[a] == before[a] && m@[b] == before[b]);
            } else {
                assert(m@[a] == before[a]);
            }
        }
        lemma_member_of_unique(m@, before.len() as int);
        assert forall|j: Seq<char>| j != kk implies member(m@, j) == member(before, j) by {
            lemma_member_some(before, j);
            lemma_member_some(m@, j);
            if member(before, j) is Some {
                let a = choose|a: int| 0 <= a < before.len() && before[a].0@ == j && before[a].1 == member(
                    before,
                    j,
                )->0;
                lemma_member_of_unique(before, a);
                assert(m@[a] == before[a]);
                lemma_member_of_unique(m@, a);
            } else {
                if member(m@, j) is Some {
                    let a = choose|a: int| 0 <= a < m@.len() && m@[a].0@ == j && m@[a].1 == member(m@, j)->0;
                    if a < before.len() {
                        assert(m@[a] == before[a]);
                    }
                }
            }
        }
    }
}

/// Takes the member of key `k` out of `m`, returning its value.
fn take_member(m: &mut Vec<(String, JsonValue)>, k: &String) -> (r: Option<JsonValue>)
    requires
        keys_unique(old(m)@),
    ensures
        keys_unique(final(m)@),
        r == member(old(m)@, k@),
        member(final(m)@, k@) is None,
        forall|j: Seq<char>| j != k@ ==> member(final(m)@, j) == member(old(m)@, j),
        forall|a: int| 0 <= a < final(m)@.len() ==> old(m)@.contains(#[trigger] final(m)@[a]),
{
    let ghost before = m@;
    proof {
        lemma_member_some(before, k@);
    }
    let mut i: usize = 0;
    while i < m.len()
        invariant
            m@ == before,
            before == old(m)@,
            keys_unique(before),
            i <= m@.len(),
            forall|j: int| 0 <= j < i ==> (#[trigger] m@[j]).0@ != k@,
        decreases m@.len() - i,
    {
        if m[i].0 == *k {
            proof {
                lemma_member_of_unique(before, i as int);
            }
            let (_, v) = m.remove(i);
            proof {
                assert(m@ =~= before.remove(i as int));
                assert forall|a: int, b: int| 0 <= a < b < m@.len() implies (#[trigger] m@[a]).0@ != (
                #[trigger] m@[b]).0@ by {
                    let a0 = if a < i { a } else { a + 1 };
                    let b0 = if b < i { b } else { b + 1 };
                    assert(m@[a] == before[a0] && m@[b] == before[b0]);
                }
                lemma_member_some(m@, k@);
                if member(m@, k@) is Some {
                    let a = choose|a: int| 0 <= a < m@.len() && m@[a].0@ == k@ && m@[a].1 == member(m@, k@)->0;
                    let a0 = if a < i { a } else { a + 1 };
                    assert(m@[a] == before[a0]);
                }
                assert forall|j: Seq<char>| j != k@ implies member(m@, j) == member(before, j) by {
                    lemma_member_some(before, j);
                    lemma_member_some(m@, j);
                    if member(before, j) is Some {
                        let a = choose|a: int| 0 <= a < before.len() && before[a].0@ == j && before[a].1
                            == member(before, j)->0;
                        lemma_member_of_unique(before, a);
                        let a1 = if a < i { a } else { a - 1 };
                        assert(a != i);
                        assert(m@[a1] == before[a]);
                        lemma_member_of_unique(m@, a1);
                    } else if member(m@, j) is Some {
                        let a = choose|a: int| 0 <= a < m@.len() && m@[a].0@ == j && m@[a].1 == member(m@, j)->0;
                        let a0 = if a < i { a } else { a + 1 };
                        assert(m@[a] == before[a0]);
                    }
                }
            }
            return Some(v);
        }
        i += 1;
    }
    None
}

/// Whether `r` is target `t` with merge patch `p` applied (RFC 7396): an
/// object patch sets each of its members in the target (an object, or an
/// empty one), merging recursively, and removes those it sets to `null`;
/// any other patch replaces the target.
pub open spec fn is_merge(t: JsonValue, p: JsonValue, r: JsonValue) -> bool
    decreases p,
{
    match p {
        JsonValue::Object(pm) => {
            let tm = match t {
                JsonValue::Object(x) => x@,
                _ => Seq::empty(),
            };
            &&& r matches JsonValue::Object(rm)
            &&& keys_unique(rm@)
            &&& forall|k: Seq<char>|
                #![trigger member(r->Object_0@, k)]
                member(pm@, k) is None ==> member(r->Object_0@, k) == member(tm, k)
            &&& forall|i: int|
                0 <= i < pm@.len() ==> {
                    let k = (#[trigger] pm@[i]).0@;
                    if pm@[i].1 is Null {
                        member(r->Object_0@, k) is None
                    } else {
                        &&& member(r->Object_0@, k) is Some
                        &&& is_merge(or_null(member(tm, k)), pm@[i].1, member(r->Object_0@, k)->0)
                    }
                }
        },
        _ => json_same(r, p),
    }
}


/// Whether every object in `v`, at any depth, has members of distinct keys
/// (as every value that serde_json gives has).
pub open spec fn json_wf(v: JsonValue) -> bool
    decreases v,
{
    match v {
        JsonValue::Array(x) => forall|i: int| 0 <= i < x@.len() ==> json_wf(#[trigger] x@[i]),
        JsonValue::Object(x) => keys_unique(x@) && forall|i: int|
            0 <= i < x@.len() ==> json_wf((#[trigger] x@[i]).1),
        _ => true,
    }
}

/// `v`, or `null` where there is none.
pub open spec fn or_null(v: Option<JsonValue>) -> JsonValue {
    match v {
        Some(x) => x,
        None => JsonValue::Null,
    }
}

/// A value that is the same as a well-formed one is well formed.
proof fn lemma_json_same_wf(a: JsonValue, b: JsonValue)
    requires
        json_same(a, b),
        json_wf(b),
    ensures
        json_wf(a),
    decreases a,
{
    match a {
        JsonValue::Array(x) => {
            let y = b->Array_0;
            assert forall|i: int| 0 <= i < x@.len() implies json_wf(#[trigger] x@[i]) by {
                assert(decreases_to!(a => x));
                assert(decreases_to!(x => x@));
                assert(decreases_to!(x@ => x@[i]));
                assert(json_same(x@[i], y@[i]));
                assert(json_wf(y@[i]));
                lemma_json_same_wf(x@[i], y@[i]);
            }
        },
        JsonValue::Object(x) => {
            let y = b->Object_0;
            assert forall|i: int, j: int| 0 <= i < j < x@.len() implies (#[trigger] x@[i]).0@ != (
            #[trigger] x@[j]).0@ by {
                assert(x@[i].0@ == y@[i].0@ && x@[j].0@ == y@[j].0@);
                assert(y@[i].0@ != y@[j].0@);
            }
            assert forall|i: int| 0 <= i < x@.len() implies json_wf((#[trigger] x@[i]).1) by {
                assert(decreases_to!(a => x));
                assert(decreases_to!(x => x@));
                assert(decreases_to!(x@ => x@[i]));
                assert(decreases_to!(x@[i] => x@[i].1));
                assert(json_same(x@[i].1, y@[i].1));
                assert(json_wf(y@[i].1));
                lemma_json_same_wf(x@[i].1, y@[i].1);
            }
        },
        _ => {},
    }
}

/// Applies merge patch `patch` to `target` (RFC 7396), as a device's
/// reported and desired states are updated.
#[verifier::loop_isolation(false)]
pub fn merge_patch(target: JsonValue, patch: &JsonValue) -> (r: JsonValue)
    requires
        json_wf(target),
        json_wf(*patch),
    ensures
        is_merge(target, *patch, r),
        json_wf(r),
    decreases patch,
{
    match patch {
        JsonValue::Object(pm) => {
            let ghost t = target;
            let mut rm: Vec<(String, JsonValue)> = match target {
                JsonValue::Object(x) => x,
                _ => Vec::new(),
            };
            let ghost tm = rm@;
            assert(forall|a: int| 0 <= a < tm.len() ==> json_wf(#[trigger] tm[a].1));
            let mut i: usize = 0;
            while i < pm.len()
                invariant
                    i <= pm@.len(),
                    keys_unique(pm@),
                    keys_unique(rm@),
                    tm == match t {
                        JsonValue::Object(x) => x@,
                        _ => Seq::empty(),
                    },
                    forall|a: int| 0 <= a < tm.len() ==> json_wf(#[trigger] tm[a].1),
                    forall|a: int| 0 <= a < rm@.len() ==> json_wf(#[trigger] rm@[a].1),
                    forall|a: int|
                        0 <= a < i ==> {
                            let k = (#[trigger] pm@[a]).0@;
                            if pm@[a].1 is Null {
                                member(rm@, k) is None
                            } else {
                                &&& member(rm@, k) is Some
                                &&& is_merge(or_null(member(tm, k)), pm@[a].1, member(rm@, k)->0)
                            }
                        },
                    forall|k: Seq<char>|
                        (forall|a: int| 0 <= a < i ==> (#[trigger] pm@[a]).0@ != k) ==> member(rm@, k)
                            == member(tm, k),
                decreases pm@.len() - i,
            {
                let key = &pm[i].0;
                let value = &pm[i].1;
                let ghost k = key@;
                proof {
                    assert(forall|a: int| 0 <= a < i ==> (#[trigger] pm@[a]).0@ != k);
                    assert(member(rm@, k) == member(tm, k));
                    lemma_member_some(tm, k);
                }
                let ghost before = rm@;
                let existing = take_member(&mut rm, key);
                assert forall|a: int| 0 <= a < rm@.len() implies json_wf(#[trigger] rm@[a].1) by {
                    assert(before.contains(rm@[a]));
                    let b = choose|b: int| 0 <= b < before.len() && before[b] == rm@[a];
                    assert(json_wf(before[b].1));
                }
                match value {
                    JsonValue::Null => {},
                    _ => {
                        let base = match existing {
                            Some(e) => e,
                            None => JsonValue::Null,
                        };
                        proof {
                            assert(decreases_to!(*patch => *pm));
                            assert(decreases_to!(*pm => pm@));
                            assert(decreases_to!(pm@ => pm@[i as int]));
                            assert(decreases_to!(pm@[i as int] => pm@[i as int].1));
                            assert(json_wf(pm@[i as int].1));
                            if member(tm, k) is Some {
                                let a = choose|a: int|
                                    0 <= a < tm.len() && tm[a].0@ == k && tm[a].1 == member(tm, k)->0;
                                assert(json_wf(tm[a].1));
                            }
                        }
                        let merged = merge_patch(base, value);
                        let ghost mid = rm@;
                        let ghost mv = merged;
                        set_member(&mut rm, key.clone(), merged);
                        assert forall|a: int| 0 <= a < rm@.len() implies json_wf(#[trigger] rm@[a].1) by {
                            if rm@[a].1 != mv {
                                assert(mid.contains(rm@[a]));
                                let b = choose|b: int| 0 <= b < mid.len() && mid[b] == rm@[a];
                                assert(json_wf(mid[b].1));
                            }
                        }
                    },
                }
                proof {
                    assert forall|a: int| 0 <= a < i + 1 implies {
                        let kk = (#[trigger] pm@[a]).0@;
                        if pm@[a].1 is Null {
                            member(rm@, kk) is None
                        } else {
                            &&& member(rm@, kk) is Some
                            &&& is_merge(or_null(member(tm, kk)), pm@[a].1, member(rm@, kk)->0)
                        }
                    } by {
                        if a < i {
                            assert(pm@[a].0@ != pm@[i as int].0@);
                        }
                    }
                    assert forall|kk: Seq<char>|
                        (forall|a: int| 0 <= a < i + 1 ==> (#[trigger] pm@[a]).0@ != kk) implies member(rm@, kk)
                        == member(tm, kk) by {
                        assert(pm@[i as int].0@ != kk);
                        assert(forall|a: int| 0 <= a < i ==> (#[trigger] pm@[a]).0@ != kk);
                    }
                }
                i += 1;
            }
            proof {
                assert forall|kk: Seq<char>| member(pm@, kk) is None implies member(rm@, kk) == member(tm, kk) by {
                    lemma_member_some(pm@, kk);
                }
            }
            JsonValue::Object(rm)
        },
        _ => {
            let r = json_clone(patch);
            proof {
                lemma_json_same_wf(r, *patch);
            }
            r
        },
    }
}

} // verus!
