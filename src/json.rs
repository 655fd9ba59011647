use vstd::prelude::*;

verus! {

/// A JSON value, as the library reads it from a request and writes it back as text.
#[derive(Debug)]
pub enum Json {
    Null,
    Bool(bool),
    /// A number that fits in `i64`.
    Int(i64),
    /// Any other number, held as its JSON text.
    Num(String),
    Str(String),
    Arr(Vec<Json>),
    /// The members of an object, in order.
    Obj(Vec<(String, Json)>),
}

/// The JSON string literal for `s`: quotes around it and escapes inside.
pub uninterp spec fn quoted(s: Seq<char>) -> Seq<char>;

/// Whether `s` is the text of one JSON value.
pub uninterp spec fn is_json(s: Seq<char>) -> bool;

/// Relies on serde_json::to_string on a `&str`: it writes the string as a JSON literal
/// and cannot fail on one.
#[verifier::external_body]
pub(crate) fn quote(s: &str) -> (r: String)
    ensures
        r@ == quoted(s@),
{
    match serde_json::to_string(s) {
        Ok(t) => t,
        Err(_) => String::new(),
    }
}

/// Relies on serde_json::from_str into a `serde_json::Value`: it succeeds exactly when
/// the text is one JSON value.
#[verifier::external_body]
pub(crate) fn is_valid_json(s: &str) -> (r: bool)
    ensures
        r == is_json(s@),
{
    serde_json::from_str::<serde_json::Value>(s).is_ok()
}

pub open spec fn digit(d: nat) -> char {
    seq!['0', '1', '2', '3', '4', '5', '6', '7', '8', '9'][d as int]
}

/// Decimal digits of `n`, without leading zeros.
pub open spec fn nat_text(n: nat) -> Seq<char>
    decreases n,
{
    if n < 10 {
        seq![digit(n)]
    } else {
        nat_text(n / 10).push(digit(n % 10))
    }
}

/// Decimal text of `n`, with a leading `-` when it is negative.
pub open spec fn int_text(n: int) -> Seq<char> {
    if n < 0 {
        seq!['-'] + nat_text((-n) as nat)
    } else {
        nat_text(n as nat)
    }
}

/// Relies on `i64::to_string` (std's `Display` for integers): decimal digits, no leading
/// zeros, a `-` before a negative number.
#[verifier::external_body]
pub(crate) fn int_to_text(n: i64) -> (r: String)
    ensures
        r@ == int_text(n as int),
{
    n.to_string()
}

/// Compact JSON text of a value.
pub open spec fn json_text(j: Json) -> Seq<char>
    decreases j,
{
    match j {
        Json::Null => "null"@,
        Json::Bool(b) => if b { "true"@ } else { "false"@ },
        Json::Int(n) => int_text(n as int),
        Json::Num(t) => t@,
        Json::Str(s) => quoted(s@),
        Json::Arr(items) => seq!['['] + items_text(items@) + seq![']'],
        Json::Obj(members) => seq!['{'] + members_text(members@) + seq!['}'],
    }
}

/// The values of an array, separated by commas.
pub open spec fn items_text(items: Seq<Json>) -> Seq<char>
    decreases items,
{
    if items.len() == 0 {
        seq![]
    } else if items.len() == 1 {
        json_text(items[0])
    } else {
        items_text(items.drop_last()) + seq![','] + json_text(items.last())
    }
}

/// The members of an object as `"key":value`, separated by commas.
pub open spec fn members_text(members: Seq<(String, Json)>) -> Seq<char>
    decreases members,
{
    if members.len() == 0 {
        seq![]
    } else if members.len() == 1 {
        quoted(members[0].0@) + seq![':'] + json_text(members[0].1)
    } else {
        members_text(members.drop_last()) + seq![','] + quoted(members.last().0@) + seq![':']
            + json_text(members.last().1)
    }
}

impl Json {
    /// Appends the compact JSON text of this value to `out`.
    pub fn write_text(&self, out: &mut String)
        ensures
            final(out)@ == old(out)@ + json_text(*self),
        decreases self,
    {
        match self {
            Json::Null => out.append("null"),
            Json::Bool(b) => {
                if *b {
                    out.append("true")
                } else {
                    out.append("false")
                }
            },
            Json::Int(n) => {
                let t = int_to_text(*n);
                out.append(t.as_str());
            },
            Json::Num(t) => out.append(t.as_str()),
            Json::Str(s) => {
                let q = quote(s.as_str());
                out.append(q.as_str());
            },
            Json::Arr(items) => {
                let ghost start = out@;
                out.append("[");
                proof {
                    reveal_strlit("[");
                    reveal_strlit(",");
                    reveal_strlit("]");
                    assert(items@.subrange(0, 0) =~= Seq::<Json>::empty());
                }
                let mut i: usize = 0;
                while i < items.len()
                    invariant
                        0 <= i <= items@.len(),
                        out@ == start + seq!['['] + items_text(items@.subrange(0, i as int)),
                        *self == Json::Arr(*items),
                    decreases items.len() - i,
                {
                    if i > 0 {
                        out.append(",");
                    }
                    proof {
                        assert(items@.subrange(0, i + 1).drop_last() =~= items@.subrange(0, i as int));
                        reveal_strlit(",");
                        assert(decreases_to!(*self => (*self)->Arr_0));
                        assert(decreases_to!(*items => items[i as int]));
                    }
                    items[i].write_text(out);
                    proof {
                        let p = items@.subrange(0, i + 1);
                        assert(p.last() == items@[i as int]);
                        if i == 0 {
                            assert(p.len() == 1);
                        }
                    }
                    i = i + 1;
                }
                assert(items@.subrange(0, i as int) =~= items@);
                out.append("]");
            },
            Json::Obj(members) => {
                let ghost start = out@;
                out.append("{");
                proof {
                    reveal_strlit("{");
                    reveal_strlit(",");
                    reveal_strlit(":");
                    reveal_strlit("}");
                    assert(members@.subrange(0, 0) =~= Seq::<(String, Json)>::empty());
                }
                let mut i: usize = 0;
                while i < members.len()
                    invariant
                        0 <= i <= members@.len(),
                        out@ == start + seq!['{'] + members_text(members@.subrange(0, i as int)),
                        *self == Json::Obj(*members),
                    decreases members.len() - i,
                {
                    if i > 0 {
                        out.append(",");
                    }
                    proof {
                        assert(members@.subrange(0, i + 1).drop_last() =~= members@.subrange(0, i as int));
                        reveal_strlit(",");
                        reveal_strlit(":");
                        assert(decreases_to!(*self => (*self)->Obj_0));
                        assert(decreases_to!(*members => members[i as int]));
                        assert(decreases_to!(members[i as int] => members[i as int].1));
                    }
                    let q = quote(members[i].0.as_str());
                    out.append(q.as_str());
                    out.append(":");
                    members[i].1.write_text(out);
                    proof {
                        let p = members@.subrange(0, i + 1);
                        assert(p.last() == members@[i as int]);
                        if i == 0 {
                            assert(p.len() == 1);
                            assert(p[0] == members@[0]);
                        }
                    }
                    i = i + 1;
                }
                assert(members@.subrange(0, i as int) =~= members@);
                out.append("}");
            },
        }
    }

    /// The compact JSON text of this value.
    pub fn to_text(&self) -> (r: String)
        ensures
            r@ == json_text(*self),
    {
        let mut out = String::new();
        self.write_text(&mut out);
        out
    }
}

} // verus!
