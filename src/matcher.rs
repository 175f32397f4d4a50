//! Finding the attachment of a release that carries a wanted file name.
use vstd::prelude::*;
use crate::text::{eq_fold, eq_ignore_ascii_case};

verus! {

/// A file attached to a release: its name and where to download it from.
#[derive(Clone, Debug)]
pub struct AttachmentRef {
    pub name: String,
    pub location: String,
}

/// No attachment of the release `tag` is named `wanted`.
#[derive(Debug)]
pub struct NoMatchError {
    pub tag: String,
    pub wanted: String,
}

impl NoMatchError {
    pub fn message(&self) -> (r: String)
        ensures
            r@ == "No asset found on latest release "@ + self.tag@,
    {
        let mut m = String::from_str("No asset found on latest release ");
        m.append(self.tag.as_str());
        m
    }
}

/// Whether the attachment at `i` is named `wanted`, ASCII letters folded.
pub open spec fn name_matches(atts: Seq<AttachmentRef>, i: int, wanted: Seq<char>) -> bool {
    eq_fold(atts[i].name@, wanted)
}

/// `i` is the first position whose attachment is named `wanted`.
pub open spec fn is_first_match(atts: Seq<AttachmentRef>, i: int, wanted: Seq<char>) -> bool {
    &&& 0 <= i < atts.len()
    &&& name_matches(atts, i, wanted)
    &&& forall|k: int| 0 <= k < i ==> !#[trigger] name_matches(atts, k, wanted)
}

/// Returns the first attachment, in listing order, whose name equals `wanted`
/// with ASCII letters folded; fails, naming the release tag and `wanted`, when
/// there is none.
pub fn find<'a>(attachments: &'a Vec<AttachmentRef>, wanted: &str, tag: &str) -> (r: Result<
    &'a AttachmentRef,
    NoMatchError,
>)
    ensures
        r matches Ok(a) ==> exists|i: int|
            is_first_match(attachments@, i, wanted@) && *a == #[trigger] attachments@[i],
        r matches Err(e) ==> e.tag@ == tag@ && e.wanted@ == wanted@,
        r is Err <==> forall|i: int|
            0 <= i < attachments@.len() ==> !#[trigger] name_matches(attachments@, i, wanted@),
{
    let mut i: usize = 0;
    while i < attachments.len()
        invariant
            i <= attachments@.len(),
            forall|k: int| 0 <= k < i ==> !#[trigger] name_matches(attachments@, k, wanted@),
        decreases attachments@.len() - i,
    {
        let a = &attachments[i];
        if eq_ignore_ascii_case(a.name.as_str(), wanted) {
            assert(is_first_match(attachments@, i as int, wanted@));
            return Ok(a);
        }
        i = i + 1;
    }
    Err(NoMatchError { tag: String::from_str(tag), wanted: String::from_str(wanted) })
}

} // verus!
