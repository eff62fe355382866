//! Closed sets of tags, each with a fixed name.
//!
//! A tag type lists its variants and gives each a name. Parsing a name and
//! printing a tag are written once, for every such type.

use vstd::prelude::*;
use vstd::string::*;

verus! {

/// A closed set of tags with a fixed name for each.
pub trait NamedEnum: Sized + Copy {
    /// The name of this tag.
    spec fn name(&self) -> Seq<char>;

    /// Every tag of the type, in the order in which names are tried.
    spec fn all() -> Seq<Self>;

    /// The name of the type itself, as messages show it.
    spec fn kind_name() -> Seq<char>;

    fn as_str(&self) -> (s: &'static str)
        ensures
            s@ == self.name(),
    ;

    fn variants() -> (v: Vec<Self>)
        ensures
            v@ == Self::all(),
    ;

    fn kind() -> (s: &'static str)
        ensures
            s@ == Self::kind_name(),
    ;
}

/// Every tag is listed once and no two tags share a name.
pub open spec fn is_bijective<T: NamedEnum>() -> bool {
    &&& forall|t: T| #[trigger] T::all().contains(t)
    &&& forall|i: int, j: int|
        0 <= i < j < T::all().len() ==> #[trigger] T::all()[i].name() != #[trigger] T::all()[j].name()
}

/// Some tag of the type has the name `s`.
pub open spec fn is_name<T: NamedEnum>(s: Seq<char>) -> bool {
    exists|i: int| 0 <= i < T::all().len() && #[trigger] T::all()[i].name() == s
}

/// `t` is the first tag in the type's order whose name is `s`.
pub open spec fn is_first_named<T: NamedEnum>(t: T, s: Seq<char>) -> bool {
    exists|i: int|
        0 <= i < T::all().len() && #[trigger] T::all()[i] == t && t.name() == s && forall|j: int|
            0 <= j < i ==> #[trigger] T::all()[j].name() != s
}

/// The text reported for a name that no tag has.
pub open spec fn unknown_message(kind_name: Seq<char>, s: Seq<char>) -> Seq<char> {
    "Unknown "@ + kind_name + ": "@ + s
}

/// Whether two string slices hold the same characters.
pub(crate) fn str_eq(a: &str, b: &str) -> (r: bool)
    ensures
        r == (a@ == b@),
{
    a.to_owned() == b.to_owned()
}

/// The tag named `s`, or a message that names the type and the rejected text.
pub fn from_str<T: NamedEnum>(s: &str) -> (r: Result<T, String>)
    ensures
        r is Ok <==> is_name::<T>(s@),
        r matches Ok(t) ==> is_first_named(t, s@),
        r matches Err(e) ==> e@ == unknown_message(T::kind_name(), s@),
{
    let v = T::variants();
    let mut i: usize = 0;
    while i < v.len()
        invariant
            0 <= i <= v.len(),
            v@ == T::all(),
            forall|j: int| 0 <= j < i ==> #[trigger] T::all()[j].name() != s@,
        decreases v.len() - i,
    {
        let t: T = v[i];
        if str_eq(t.as_str(), s) {
            assert(T::all()[i as int] == t);
            return Ok(t);
        }
        i = i + 1;
    }
    let msg = String::from_str("Unknown ").concat(T::kind()).concat(": ").concat(s);
    Err(msg)
}

/// The tag's name as an owned string.
pub fn to_string<T: NamedEnum>(t: &T) -> (r: String)
    ensures
        r@ == t.name(),
{
    String::from_str(t.as_str())
}

/// A tag is found again under its own name.
pub proof fn lemma_name_round_trip<T: NamedEnum>(t: T)
    requires
        is_bijective::<T>(),
    ensures
        is_name::<T>(t.name()),
        is_first_named(t, t.name()),
        forall|u: T| is_first_named(u, t.name()) ==> u == t,
{
    assert(T::all().contains(t));
    let i = choose|i: int| 0 <= i < T::all().len() && T::all()[i] == t;
    assert(T::all()[i].name() == t.name());
    assert forall|j: int| 0 <= j < i implies #[trigger] T::all()[j].name() != t.name() by {
        assert(T::all()[j].name() != T::all()[i].name());
    }
    assert forall|u: T| is_first_named(u, t.name()) implies u == t by {
        let k = choose|k: int|
            0 <= k < T::all().len() && #[trigger] T::all()[k] == u && u.name() == t.name()
                && forall|j: int| 0 <= j < k ==> #[trigger] T::all()[j].name() != t.name();
        if k < i {
            assert(T::all()[k].name() != T::all()[i].name());
        } else if i < k {
            assert(T::all()[i].name() != t.name());
        }
    }
}

} // verus!
