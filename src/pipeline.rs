//! The decisions of a run that come before any download: which asset is
//! wanted and which attachment of the release carries it.
use vstd::prelude::*;
use crate::catalog::{resolve, spec_file_name, spec_lookup, UnknownAssetError};
use crate::matcher::{find, is_first_match, name_matches, AttachmentRef, NoMatchError};

verus! {

/// Why a run stops before downloading.
#[derive(Debug)]
pub enum LocateError {
    UnknownAsset(UnknownAssetError),
    NoMatch(NoMatchError),
}

/// Resolves the asset name `asset` and picks, among the attachments of the
/// release `tag`, the first one that carries the asset's file.
pub fn locate<'a>(asset: &str, tag: &str, attachments: &'a Vec<AttachmentRef>) -> (r: Result<
    &'a AttachmentRef,
    LocateError,
>)
    ensures
        spec_lookup(asset@) is None <==> r matches Err(LocateError::UnknownAsset(_)),
        r matches Err(LocateError::UnknownAsset(e)) ==> e.name@ == asset@,
        spec_lookup(asset@) matches Some(a) ==> match r {
            Ok(att) => exists|i: int|
                is_first_match(attachments@, i, spec_file_name(a)) && *att
                    == #[trigger] attachments@[i],
            Err(LocateError::NoMatch(e)) => e.tag@ == tag@ && e.wanted@ == spec_file_name(a)
                && forall|i: int|
                0 <= i < attachments@.len() ==> !#[trigger] name_matches(
                    attachments@,
                    i,
                    spec_file_name(a),
                ),
            Err(LocateError::UnknownAsset(_)) => false,
        },
{
    match resolve(asset) {
        Err(e) => Err(LocateError::UnknownAsset(e)),
        Ok(wanted) => match find(attachments, wanted.as_str(), tag) {
            Ok(att) => Ok(att),
            Err(e) => Err(LocateError::NoMatch(e)),
        },
    }
}

} // verus!
