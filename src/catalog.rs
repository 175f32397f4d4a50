//! The closed catalog of asset names, each naming one file of a release.
use vstd::prelude::*;
use crate::text::{
    char_eq_fold, eq_fold, eq_ignore_ascii_case, lemma_eq_fold_reflexive, lemma_eq_fold_transitive,
};

verus! {

/// One build variant that a release publishes.
#[derive(Clone, Copy, Debug, PartialEq, Eq, Structural)]
pub enum Asset {
    OpenGl,
    ZipOpenGl,
    Vulkan,
    ZipVulkan,
}

/// The name under which a user asks for an asset.
pub open spec fn spec_variant_name(a: Asset) -> Seq<char> {
    match a {
        Asset::OpenGl => "OpenGl"@,
        Asset::ZipOpenGl => "ZipOpenGl"@,
        Asset::Vulkan => "Vulkan"@,
        Asset::ZipVulkan => "ZipVulkan"@,
    }
}

/// The file that a release attaches for an asset.
pub open spec fn spec_file_name(a: Asset) -> Seq<char> {
    match a {
        Asset::OpenGl => "zed-opengl.exe"@,
        Asset::ZipOpenGl => "zed-opengl.zip"@,
        Asset::Vulkan => "zed.exe"@,
        Asset::ZipVulkan => "zed.zip"@,
    }
}

/// The asset that a user-supplied name denotes, if any: the names compare
/// with ASCII letters folded.
pub open spec fn spec_lookup(name: Seq<char>) -> Option<Asset> {
    if eq_fold(name, spec_variant_name(Asset::OpenGl)) {
        Some(Asset::OpenGl)
    } else if eq_fold(name, spec_variant_name(Asset::ZipOpenGl)) {
        Some(Asset::ZipOpenGl)
    } else if eq_fold(name, spec_variant_name(Asset::Vulkan)) {
        Some(Asset::Vulkan)
    } else if eq_fold(name, spec_variant_name(Asset::ZipVulkan)) {
        Some(Asset::ZipVulkan)
    } else {
        None
    }
}

/// A name that the catalog does not hold.
#[derive(Debug)]
pub struct UnknownAssetError {
    pub name: String,
}

impl UnknownAssetError {
    pub fn message(&self) -> (r: String)
        ensures
            r@ == "unknown asset "@ + self.name@,
    {
        let mut m = String::from_str("unknown asset ");
        m.append(self.name.as_str());
        m
    }
}

impl Asset {
    /// Every asset, in the order in which the help listing shows them.
    pub fn all() -> (r: Vec<Asset>)
        ensures
            r@ == seq![Asset::OpenGl, Asset::ZipOpenGl, Asset::Vulkan, Asset::ZipVulkan],
    {
        vec![Asset::OpenGl, Asset::ZipOpenGl, Asset::Vulkan, Asset::ZipVulkan]
    }

    pub fn variant_name(&self) -> (r: &'static str)
        ensures
            r@ == spec_variant_name(*self),
    {
        match self {
            Asset::OpenGl => "OpenGl",
            Asset::ZipOpenGl => "ZipOpenGl",
            Asset::Vulkan => "Vulkan",
            Asset::ZipVulkan => "ZipVulkan",
        }
    }

    pub fn file_name(&self) -> (r: &'static str)
        ensures
            r@ == spec_file_name(*self),
    {
        match self {
            Asset::OpenGl => "zed-opengl.exe",
            Asset::ZipOpenGl => "zed-opengl.zip",
            Asset::Vulkan => "zed.exe",
            Asset::ZipVulkan => "zed.zip",
        }
    }

    /// Reads an asset name, ignoring the case of ASCII letters.
    pub fn from_name(name: &str) -> (r: Result<Asset, UnknownAssetError>)
        ensures
            r matches Ok(a) ==> spec_lookup(name@) == Some(a),
            r matches Err(e) ==> spec_lookup(name@) is None && e.name@ == name@,
            r is Ok <==> spec_lookup(name@) is Some,
    {
        let all = Asset::all();
        let mut i: usize = 0;
        while i < all.len()
            invariant
                all@ == seq![Asset::OpenGl, Asset::ZipOpenGl, Asset::Vulkan, Asset::ZipVulkan],
                i <= all@.len(),
                forall|k: int| 0 <= k < i ==> !eq_fold(name@, #[trigger] spec_variant_name(all@[k])),
            decreases all@.len() - i,
        {
            let a = all[i];
            if eq_ignore_ascii_case(name, a.variant_name()) {
                return Ok(a);
            }
            i = i + 1;
        }
        assert(!eq_fold(name@, spec_variant_name(all@[0])));
        assert(!eq_fold(name@, spec_variant_name(all@[1])));
        assert(!eq_fold(name@, spec_variant_name(all@[2])));
        assert(!eq_fold(name@, spec_variant_name(all@[3])));
        Err(UnknownAssetError { name: String::from_str(name) })
    }
}

/// Maps an asset name to the file that a release attaches for it.
pub fn resolve(name: &str) -> (r: Result<String, UnknownAssetError>)
    ensures
        r matches Ok(f) ==> (spec_lookup(name@) matches Some(a) && f@ == spec_file_name(a)),
        r matches Err(e) ==> spec_lookup(name@) is None && e.name@ == name@,
        r is Ok <==> spec_lookup(name@) is Some,
{
    match Asset::from_name(name) {
        Ok(a) => Ok(String::from_str(a.file_name())),
        Err(e) => Err(e),
    }
}

/// Every name that the catalog lists resolves, under any ASCII casing, to its
/// own asset, whose file name is not empty; a name that folds to none of the
/// listed names resolves to nothing.
pub proof fn lemma_catalog_resolves(a: Asset, name: Seq<char>)
    ensures
        spec_lookup(spec_variant_name(a)) == Some(a),
        eq_fold(name, spec_variant_name(a)) ==> spec_lookup(name) == Some(a),
        spec_file_name(a).len() > 0,
        spec_lookup(name) is None <==> (forall|b: Asset|
            !eq_fold(name, #[trigger] spec_variant_name(b))),
{
    reveal_strlit("OpenGl");
    reveal_strlit("ZipOpenGl");
    reveal_strlit("Vulkan");
    reveal_strlit("ZipVulkan");
    reveal_strlit("zed-opengl.exe");
    reveal_strlit("zed-opengl.zip");
    reveal_strlit("zed.exe");
    reveal_strlit("zed.zip");
    let o = spec_variant_name(Asset::OpenGl);
    let zo = spec_variant_name(Asset::ZipOpenGl);
    let v = spec_variant_name(Asset::Vulkan);
    let zv = spec_variant_name(Asset::ZipVulkan);
    // The names differ in length or in a letter whatever its case.
    assert(o.len() == 6 && v.len() == 6 && zo.len() == 9 && zv.len() == 9);
    assert(!char_eq_fold(o[0], v[0]) && !char_eq_fold(v[0], o[0]));
    assert(!char_eq_fold(zo[3], zv[3]) && !char_eq_fold(zv[3], zo[3]));
    assert(!eq_fold(o, v) && !eq_fold(v, o));
    assert(!eq_fold(zo, zv) && !eq_fold(zv, zo));
    assert(!eq_fold(o, zo) && !eq_fold(o, zv) && !eq_fold(v, zo) && !eq_fold(v, zv));
    assert(!eq_fold(zo, o) && !eq_fold(zv, o) && !eq_fold(zo, v) && !eq_fold(zv, v));
    lemma_eq_fold_reflexive(spec_variant_name(a));
    if eq_fold(name, spec_variant_name(a)) {
        lemma_eq_fold_transitive(name, spec_variant_name(a), o);
        lemma_eq_fold_transitive(name, spec_variant_name(a), zo);
        lemma_eq_fold_transitive(name, spec_variant_name(a), v);
        lemma_eq_fold_transitive(name, spec_variant_name(a), zv);
    }
    if spec_lookup(name) is None {
        assert forall|b: Asset| !eq_fold(name, #[trigger] spec_variant_name(b)) by {
            match b {
                Asset::OpenGl => {},
                Asset::ZipOpenGl => {},
                Asset::Vulkan => {},
                Asset::ZipVulkan => {},
            }
        }
    } else {
        let b = spec_lookup(name)->0;
        assert(eq_fold(name, spec_variant_name(b)));
    }
}

} // verus!
