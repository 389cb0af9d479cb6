use crate::error::RqliteError;
use vstd::prelude::*;
use vstd::string::*;

verus! {

/// The five SQLite storage classes a result column can declare.
#[derive(Clone, Copy, Debug, PartialEq, Eq, Structural)]
pub enum Type {
    Null,
    Integer,
    Real,
    Text,
    Blob,
}

/// Equality of two string slices, by their characters.
pub(crate) fn str_eq(a: &str, b: &str) -> (r: bool)
    ensures
        r == (a@ == b@),
{
    let sa = a.to_owned();
    let sb = b.to_owned();
    sa == sb
}

/// The declared type a tag maps to: the empty tag is `Null`, the five
/// lowercase names map to their storage class, and any other tag is
/// unknown.
pub open spec fn spec_type_of(s: Seq<char>) -> Option<Type> {
    if s == ""@ {
        Some(Type::Null)
    } else if s == "integer"@ {
        Some(Type::Integer)
    } else if s == "real"@ {
        Some(Type::Real)
    } else if s == "text"@ {
        Some(Type::Text)
    } else if s == "blob"@ {
        Some(Type::Blob)
    } else {
        None
    }
}

/// Interpret one declared-type tag.
pub fn get_type(tag: &str) -> (r: Result<Type, ()>)
    ensures
        r matches Ok(t) ==> spec_type_of(tag@) == Some(t),
        r is Err <==> spec_type_of(tag@) is None,
{
    if str_eq(tag, "") {
        Ok(Type::Null)
    } else if str_eq(tag, "integer") {
        Ok(Type::Integer)
    } else if str_eq(tag, "real") {
        Ok(Type::Real)
    } else if str_eq(tag, "text") {
        Ok(Type::Text)
    } else if str_eq(tag, "blob") {
        Ok(Type::Blob)
    } else {
        Err(())
    }
}

/// The message reported for an unknown declared-type tag.
pub open spec fn unknown_type_msg(tag: Seq<char>) -> Seq<char> {
    "unknown sqlite type "@ + tag
}

/// Parse a whole schema's declared-type tags.
///
/// Succeeds exactly when every tag is one of the known ones, mapping each
/// in order; the first unknown tag is reported in a `DataSer` error that
/// names it.
pub fn parse_vec_types(tags: &Vec<String>) -> (r: Result<Vec<Type>, RqliteError>)
    ensures
        r matches Ok(ts) ==> {
            &&& ts@.len() == tags@.len()
            &&& forall|i: int|
                0 <= i < tags@.len() ==> spec_type_of(tags@[i]@) == Some(#[trigger] ts@[i])
        },
        r is Err <==> exists|i: int| 0 <= i < tags@.len() && spec_type_of(#[trigger] tags@[i]@) is None,
        r matches Err(e) ==> e matches RqliteError::DataSer(m) && exists|i: int|
            0 <= i < tags@.len() && spec_type_of(#[trigger] tags@[i]@) is None && m@
                == unknown_type_msg(tags@[i]@),
{
    let mut out: Vec<Type> = Vec::new();
    let mut i: usize = 0;
    while i < tags.len()
        invariant
            0 <= i <= tags@.len(),
            out@.len() == i,
            forall|j: int| 0 <= j < i as int ==> spec_type_of(tags@[j]@) == Some(#[trigger] out@[j]),
        decreases tags@.len() - i,
    {
        match get_type(tags[i].as_str()) {
            Ok(t) => out.push(t),
            Err(_) => {
                let msg = "unknown sqlite type ".to_owned().concat(tags[i].as_str());
                return Err(RqliteError::DataSer(msg));
            },
        }
        i += 1;
    }
    proof {
        assert forall|j: int| 0 <= j < tags@.len() implies spec_type_of(
            #[trigger] tags@[j]@,
        ) is Some by {
            assert(spec_type_of(tags@[j]@) == Some(out@[j]));
        }
    }
    Ok(out)
}

} // verus!
