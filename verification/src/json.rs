//! The JSON value model.
//!
//! A `Json` value is an owned tree of JSON data. Numbers keep their decimal
//! text exactly as they appear on the wire, so any numeric value a server
//! sends is represented without loss of precision. The mathematical shape of
//! a value is the ghost type `JVal`, reached through `view`.

use vstd::prelude::*;

verus! {

/// An owned JSON value. The `Num` variant holds the number's decimal text.
#[derive(Debug, PartialEq)]
pub enum Json {
    Null,
    Bool(bool),
    Num(String),
    Str(String),
    Array(Vec<Json>),
    Object(Vec<(String, Json)>),
}

/// The mathematical shape of a JSON value: what a `Json` means, with every
/// string and vector replaced by its sequence of characters or elements.
pub ghost enum JVal {
    Null,
    Bool(bool),
    Num(Seq<char>),
    Str(Seq<char>),
    Arr(Seq<JVal>),
    Obj(Seq<(Seq<char>, JVal)>),
}

/// The shape of a JSON value.
pub open spec fn jval_of(j: Json) -> JVal
    decreases j,
{
    match j {
        Json::Null => JVal::Null,
        Json::Bool(b) => JVal::Bool(b),
        Json::Num(s) => JVal::Num(s@),
        Json::Str(s) => JVal::Str(s@),
        Json::Array(v) => JVal::Arr(
            Seq::new(
                v@.len(),
                |i: int|
                    if 0 <= i < v@.len() {
                        jval_of(v@[i])
                    } else {
                        JVal::Null
                    },
            ),
        ),
        Json::Object(v) => JVal::Obj(
            Seq::new(
                v@.len(),
                |i: int|
                    if 0 <= i < v@.len() {
                        (v@[i].0@, jval_of(v@[i].1))
                    } else {
                        (Seq::empty(), JVal::Null)
                    },
            ),
        ),
    }
}

impl View for Json {
    type V = JVal;

    open spec fn view(&self) -> JVal {
        jval_of(*self)
    }
}

impl DeepView for Json {
    type V = JVal;

    open spec fn deep_view(&self) -> JVal {
        jval_of(*self)
    }
}

/// The shape of an array agrees with the element-wise shape of its vector.
pub proof fn lemma_array_view(v: Vec<Json>)
    ensures
        jval_of(Json::Array(v)) == JVal::Arr(v.deep_view()),
{
    assert(jval_of(Json::Array(v))->Arr_0 =~= v.deep_view());
}

/// A decimal digit.
pub open spec fn is_digit(c: char) -> bool {
    '0' <= c && c <= '9'
}

/// The first position at or after `i` that does not hold a digit.
pub open spec fn digits_end(s: Seq<char>, i: int) -> int
    decreases s.len() - i
        when 0 <= i <= s.len()
{
    if i < s.len() && is_digit(s[i]) {
        digits_end(s, i + 1)
    } else {
        i
    }
}

pub proof fn lemma_digits_end(s: Seq<char>, i: int)
    requires
        0 <= i <= s.len(),
    ensures
        i <= digits_end(s, i) <= s.len(),
        forall|k: int| i <= k < digits_end(s, i) ==> is_digit(s[k]),
        digits_end(s, i) < s.len() ==> !is_digit(s[digits_end(s, i)]),
    decreases s.len() - i,
{
    if i < s.len() && is_digit(s[i]) {
        lemma_digits_end(s, i + 1);
    }
}

/// The exponent part of a JSON number, or the end of it: at position `i` the
/// text either ends or carries `e`/`E`, an optional sign, and one or more
/// digits running to the end.
pub open spec fn exp_wf(s: Seq<char>, i: int) -> bool {
    if i == s.len() {
        true
    } else if 0 <= i < s.len() && (s[i] == 'e' || s[i] == 'E') {
        let k: int = if i + 1 < s.len() && (s[i + 1] == '+' || s[i + 1] == '-') {
            i + 2
        } else {
            i + 1
        };
        k < s.len() && digits_end(s, k) == s.len()
    } else {
        false
    }
}

/// The fraction part of a JSON number, or what follows it: at position `i`
/// the text either ends, or carries `.` and one or more digits and then an
/// exponent part, or carries an exponent part directly.
pub open spec fn frac_wf(s: Seq<char>, i: int) -> bool {
    if i == s.len() {
        true
    } else if 0 <= i < s.len() && s[i] == '.' {
        let j = digits_end(s, i + 1);
        j > i + 1 && exp_wf(s, j)
    } else {
        exp_wf(s, i)
    }
}

/// The grammar of a JSON number: an optional minus sign, an integer part
/// without a superfluous leading zero, an optional fraction, and an optional
/// exponent.
pub open spec fn num_wf(s: Seq<char>) -> bool {
    let i0: int = if s.len() > 0 && s[0] == '-' {
        1
    } else {
        0
    };
    let i1 = digits_end(s, i0);
    &&& i1 > i0
    &&& (s[i0] != '0' || i1 == i0 + 1)
    &&& frac_wf(s, i1)
}

/// A JSON value is well formed when every number in it follows the JSON
/// number grammar. Numbers are the one field the model keeps as free text;
/// strings and object keys need no condition, since the wire layer escapes
/// them. The wire layer reproduces exactly the well-formed values byte for
/// byte.
pub open spec fn jval_wf(v: JVal) -> bool
    decreases v,
{
    match v {
        JVal::Null => true,
        JVal::Bool(_) => true,
        JVal::Num(s) => num_wf(s),
        JVal::Str(_) => true,
        JVal::Arr(a) => forall|i: int| 0 <= i < a.len() ==> jval_wf(#[trigger] a[i]),
        JVal::Obj(o) => forall|i: int| 0 <= i < o.len() ==> jval_wf((#[trigger] o[i]).1),
    }
}

/// The position where the run of digits starting at `from` ends.
pub(crate) fn scan_digits(s: &str, from: usize) -> (r: usize)
    requires
        from as int <= s@.len(),
    ensures
        r as int == digits_end(s@, from as int),
        from <= r,
        r as int <= s@.len(),
    decreases s@.len() - from as int,
{
    let n = s.unicode_len();
    if from < n {
        let c = s.get_char(from);
        if '0' <= c && c <= '9' {
            return scan_digits(s, from + 1);
        }
    }
    from
}

/// Whether `s` follows the JSON number grammar.
pub fn num_check(s: &str) -> (r: bool)
    ensures
        r == num_wf(s@),
{
    let n = s.unicode_len();
    let start: usize = if n > 0 && s.get_char(0) == '-' {
        1
    } else {
        0
    };
    let d1 = scan_digits(s, start);
    if d1 == start {
        return false;
    }
    if s.get_char(start) == '0' && d1 != start + 1 {
        return false;
    }
    let mut i = d1;
    if i < n && s.get_char(i) == '.' {
        let d2 = scan_digits(s, i + 1);
        if d2 == i + 1 {
            return false;
        }
        i = d2;
    }
    if i == n {
        return true;
    }
    let c = s.get_char(i);
    if c != 'e' && c != 'E' {
        return false;
    }
    let k = if i + 1 < n {
        let c1 = s.get_char(i + 1);
        if c1 == '+' || c1 == '-' {
            i + 2
        } else {
            i + 1
        }
    } else {
        i + 1
    };
    if k >= n {
        return false;
    }
    let d3 = scan_digits(s, k);
    d3 == n
}

impl Json {
    /// Whether this value is well formed: every number in it follows the
    /// JSON number grammar.
    pub fn is_wf(&self) -> (r: bool)
        ensures
            r == jval_wf(self@),
        decreases *self,
    {
        match self {
            Json::Null => true,
            Json::Bool(_) => true,
            Json::Num(s) => num_check(s.as_str()),
            Json::Str(_) => true,
            Json::Array(v) => {
                let mut i: usize = 0;
                while i < v.len()
                    invariant
                        i <= v@.len(),
                        *self == Json::Array(*v),
                        forall|k: int| 0 <= k < i ==> jval_wf(jval_of(#[trigger] v@[k])),
                    decreases v@.len() - i,
                {
                    if !v[i].is_wf() {
                        proof {
                            assert(!jval_wf(jval_of(*self)->Arr_0[i as int]));
                        }
                        return false;
                    }
                    i += 1;
                }
                proof {
                    assert(forall|k: int|
                        0 <= k < jval_of(*self)->Arr_0.len() ==> jval_wf(
                            #[trigger] jval_of(*self)->Arr_0[k],
                        ));
                }
                true
            },
            Json::Object(v) => {
                let mut i: usize = 0;
                while i < v.len()
                    invariant
                        i <= v@.len(),
                        *self == Json::Object(*v),
                        forall|k: int| 0 <= k < i ==> jval_wf(jval_of((#[trigger] v@[k]).1)),
                    decreases v@.len() - i,
                {
                    let entry = &v[i];
                    if !entry.1.is_wf() {
                        proof {
                            assert(!jval_wf(jval_of(*self)->Obj_0[i as int].1));
                        }
                        return false;
                    }
                    i += 1;
                }
                proof {
                    assert(forall|k: int|
                        0 <= k < jval_of(*self)->Obj_0.len() ==> jval_wf(
                            (#[trigger] jval_of(*self)->Obj_0[k]).1,
                        ));
                }
                true
            },
        }
    }

    /// A structural copy of this value.
    pub fn deep_clone(&self) -> (r: Json)
        ensures
            r@ == self@,
        decreases *self,
    {
        match self {
            Json::Null => Json::Null,
            Json::Bool(b) => Json::Bool(*b),
            Json::Num(s) => Json::Num(s.clone()),
            Json::Str(s) => Json::Str(s.clone()),
            Json::Array(v) => {
                let mut out: Vec<Json> = Vec::new();
                let mut i: usize = 0;
                while i < v.len()
                    invariant
                        i <= v@.len(),
                        out@.len() == i as int,
                        *self == Json::Array(*v),
                        forall|k: int|
                            0 <= k < i ==> jval_of(#[trigger] out@[k]) == jval_of(v@[k]),
                    decreases v@.len() - i,
                {
                    proof {
                        assert(decreases_to!(*self => self->Array_0));
                        assert(decreases_to!(*v => v@));
                        assert(decreases_to!(v@ => v@[i as int]));
                    }
                    let e = v[i].deep_clone();
                    out.push(e);
                    i += 1;
                }
                let r = Json::Array(out);
                proof {
                    assert(jval_of(r)->Arr_0 =~= jval_of(*self)->Arr_0);
                }
                r
            },
            Json::Object(v) => {
                let mut out: Vec<(String, Json)> = Vec::new();
                let mut i: usize = 0;
                while i < v.len()
                    invariant
                        i <= v@.len(),
                        out@.len() == i as int,
                        *self == Json::Object(*v),
                        forall|k: int|
                            0 <= k < i ==> (#[trigger] out@[k]).0@ == v@[k].0@ && jval_of(out@[k].1)
                                == jval_of(v@[k].1),
                    decreases v@.len() - i,
                {
                    proof {
                        assert(decreases_to!(*self => self->Object_0));
                        assert(decreases_to!(*v => v@));
                        assert(decreases_to!(v@ => v@[i as int]));
                        assert(decreases_to!(v@[i as int] => v@[i as int].1));
                    }
                    let entry = &v[i];
                    let key = entry.0.clone();
                    let val = entry.1.deep_clone();
                    out.push((key, val));
                    i += 1;
                }
                let r = Json::Object(out);
                proof {
                    assert(jval_of(r)->Obj_0 =~= jval_of(*self)->Obj_0);
                }
                r
            },
        }
    }
}

/// Structural equality of two values' shapes.
pub fn json_eq(a: &Json, b: &Json) -> (r: bool)
    ensures
        r == (a@ == b@),
    decreases *a,
{
    match a {
        Json::Null => match b {
            Json::Null => true,
            _ => false,
        },
        Json::Bool(x) => match b {
            Json::Bool(y) => *x == *y,
            _ => false,
        },
        Json::Num(x) => match b {
            Json::Num(y) => *x == *y,
            _ => false,
        },
        Json::Str(x) => match b {
            Json::Str(y) => *x == *y,
            _ => false,
        },
        Json::Array(x) => {
            let y = match b {
                Json::Array(y) => y,
                _ => {
                    return false;
                },
            };
            proof {
                assert(jval_of(*a)->Arr_0.len() == x@.len());
                assert(jval_of(*b)->Arr_0.len() == y@.len());
            }
            if x.len() != y.len() {
                return false;
            }
            let mut i: usize = 0;
            while i < x.len()
                invariant
                    i <= x@.len(),
                    x@.len() == y@.len(),
                    *a == Json::Array(*x),
                    *b == Json::Array(*y),
                    forall|k: int| 0 <= k < i ==> jval_of(#[trigger] x@[k]) == jval_of(y@[k]),
                decreases x@.len() - i,
            {
                if !json_eq(&x[i], &y[i]) {
                    proof {
                        assert(jval_of(*a)->Arr_0[i as int] != jval_of(*b)->Arr_0[i as int]);
                    }
                    return false;
                }
                i += 1;
            }
            proof {
                assert(jval_of(*a)->Arr_0 =~= jval_of(*b)->Arr_0);
            }
            true
        },
        Json::Object(x) => {
            let y = match b {
                Json::Object(y) => y,
                _ => {
                    return false;
                },
            };
            proof {
                assert(jval_of(*a)->Obj_0.len() == x@.len());
                assert(jval_of(*b)->Obj_0.len() == y@.len());
            }
            if x.len() != y.len() {
                return false;
            }
            let mut i: usize = 0;
            while i < x.len()
                invariant
                    i <= x@.len(),
                    x@.len() == y@.len(),
                    *a == Json::Object(*x),
                    *b == Json::Object(*y),
                    forall|k: int|
                        0 <= k < i ==> (#[trigger] x@[k]).0@ == y@[k].0@ && jval_of(x@[k].1)
                            == jval_of(y@[k].1),
                decreases x@.len() - i,
            {
                let ex = &x[i];
                let ey = &y[i];
                if !(ex.0 == ey.0) {
                    proof {
                        assert(jval_of(*a)->Obj_0[i as int].0 != jval_of(*b)->Obj_0[i as int].0);
                    }
                    return false;
                }
                if !json_eq(&ex.1, &ey.1) {
                    proof {
                        assert(jval_of(*a)->Obj_0[i as int].1 != jval_of(*b)->Obj_0[i as int].1);
                    }
                    return false;
                }
                i += 1;
            }
            proof {
                assert(jval_of(*a)->Obj_0 =~= jval_of(*b)->Obj_0);
            }
            true
        },
    }
}

} // verus!
