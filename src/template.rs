//! Filling the page's `{name}` placeholders.

use vstd::prelude::*;
use vstd::string::*;

verus! {

/// What `str::replace` makes of `s` with every `from` replaced by `to`.
pub uninterp spec fn replaced(s: Seq<char>, from: Seq<char>, to: Seq<char>) -> Seq<char>;

/// The standard, padded base64 text that `base64::encode` gives for `data`.
pub uninterp spec fn base64_of(data: Seq<u8>) -> Seq<char>;

/// Relies on str::replace: each non-overlapping `from` in `s`, taken from
/// the left, becomes `to`.
#[verifier::external_body]
fn replace_str(s: &str, from: &str, to: &str) -> (r: String)
    ensures
        r@ == replaced(s@, from@, to@),
{
    s.replace(from, to)
}

/// Relies on base64::encode, which writes `data` in the standard alphabet
/// with padding.
#[verifier::external_body]
fn base64_encode(data: &[u8]) -> (r: String)
    ensures
        r@ == base64_of(data@),
{
    base64::encode(data)
}

/// The placeholder for `name`: the name in braces.
pub open spec fn placeholder(name: Seq<char>) -> Seq<char> {
    seq!['{'] + name + seq!['}']
}

/// `what` with the placeholder of each pair's name replaced by its value,
/// pair after pair in order.
pub open spec fn templated(what: Seq<char>, subs: Seq<(Seq<char>, Seq<char>)>) -> Seq<char>
    decreases subs.len(),
{
    if subs.len() == 0 {
        what
    } else {
        replaced(templated(what, subs.drop_last()), placeholder(subs.last().0), subs.last().1)
    }
}

pub open spec fn views(subs: Seq<(String, String)>) -> Seq<(Seq<char>, Seq<char>)> {
    subs.map_values(|p: (String, String)| (p.0@, p.1@))
}

/// Replaces `{name}` in `what` with its value, for each pair of
/// `substitutes` in turn.
pub fn template(what: &str, substitutes: &Vec<(String, String)>) -> (r: String)
    ensures
        r@ == templated(what@, views(substitutes@)),
{
    let mut cur = what.to_owned();
    let mut i: usize = 0;
    while i < substitutes.len()
        invariant
            i <= substitutes@.len(),
            cur@ == templated(what@, views(substitutes@.take(i as int))),
        decreases substitutes@.len() - i,
    {
        let name = &substitutes[i].0;
        let key = "{".to_owned().concat(name.as_str()).concat("}");
        proof {
            reveal_strlit("{");
            reveal_strlit("}");
        }
        assert(key@ =~= placeholder(name@));
        cur = replace_str(cur.as_str(), key.as_str(), substitutes[i].1.as_str());
        assert(views(substitutes@.take(i + 1)).drop_last() =~= views(substitutes@.take(i as int)));
        i = i + 1;
    }
    assert(substitutes@.take(substitutes@.len() as int) =~= substitutes@);
    cur
}

/// The page's icon as a data URL.
pub fn favicon_url(icon: &[u8]) -> (r: String)
    ensures
        r@ == "data:image/x-icon;base64,"@ + base64_of(icon@),
{
    let enc = base64_encode(icon);
    "data:image/x-icon;base64,".to_owned().concat(enc.as_str())
}

} // verus!
