//! The asset store and the renderer. The store is an immutable, in-memory
//! mapping from hierarchical keys of the shape `{size}/{variant}/{name}`
//! to raw byte blobs; the renderer resolves a key, decodes the blob as
//! UTF-8 and prepends an optional title line.

use crate::catalog::{lemma_spec_find, spec_find};
use crate::selector::ResolvedAsset;
use crate::Error;
use vstd::prelude::*;
use vstd::string::StringExecFns;
use vstd::utf8::{encode_utf8, valid_utf8};

verus! {

/// One stored asset: a path-shaped key and its raw content.
#[derive(Debug, Clone)]
pub struct AssetRecord {
    pub path: String,
    pub data: Vec<u8>,
}

/// A read-only key-value store of assets, queried by path-shaped key.
/// On duplicate keys the earliest record wins.
#[derive(Debug, Clone)]
pub struct AssetStore {
    pub records: Vec<AssetRecord>,
}

/// Relies on std's `String::from_utf8`: succeeds exactly on valid UTF-8
/// and returns the string whose UTF-8 encoding is the input bytes.
#[verifier::external_body]
fn decode_utf8(bytes: &Vec<u8>) -> (r: Option<String>)
    ensures
        r is Some <==> valid_utf8(bytes@),
        r matches Some(s) ==> encode_utf8(s@) == bytes@,
{
    String::from_utf8(bytes.clone()).ok()
}

impl AssetStore {
    /// The views of the stored keys, in insertion order.
    pub open spec fn paths(&self) -> Seq<Seq<char>> {
        Seq::new(self.records@.len(), |i: int| self.records@[i].path@)
    }

    /// An empty store.
    pub fn new() -> (r: AssetStore)
        ensures
            r.records@.len() == 0,
    {
        AssetStore { records: Vec::new() }
    }

    /// Adds one asset at the end.
    pub fn insert(&mut self, path: String, data: Vec<u8>) -> (r: ())
        ensures
            final(self).records@ == old(self).records@.push(AssetRecord { path, data }),
    {
        self.records.push(AssetRecord { path, data });
    }

    /// The position of the first record stored under `key`, if any.
    pub fn lookup(&self, key: &str) -> (r: Option<usize>)
        ensures
            match r {
                Some(i) => i == spec_find(self.paths(), key@) && i < self.records@.len()
                    && self.records@[i as int].path@ == key@,
                None => spec_find(self.paths(), key@) == -1,
            },
    {
        let n = self.records.len();
        let mut found: Option<usize> = None;
        let mut i: usize = 0;
        while i < n
            invariant
                i <= n,
                n == self.records@.len(),
                match found {
                    Some(k) => k == spec_find(self.paths().take(i as int), key@),
                    None => spec_find(self.paths().take(i as int), key@) == -1,
                },
            decreases n - i,
        {
            proof {
                assert(self.paths().take(i + 1).drop_last() =~= self.paths().take(i as int));
                assert(self.paths().take(i + 1).last() == self.records@[i as int].path@);
            }
            if found.is_none() && crate::text::str_eq(self.records[i].path.as_str(), key) {
                found = Some(i);
            }
            i += 1;
        }
        proof {
            assert(self.paths().take(n as int) =~= self.paths());
            lemma_spec_find(self.paths(), key@);
        }
        found
    }
}

/// The store key of a resolved request:
/// `{size}/{variant}/{display_name}`.
pub open spec fn spec_asset_key(ra: ResolvedAsset) -> Seq<char> {
    (if ra.is_large {
        "large"@
    } else {
        "small"@
    }) + "/"@ + (if ra.is_shiny {
        "shiny"@
    } else {
        "regular"@
    }) + "/"@ + ra.display_name@
}

/// Builds the store key of a resolved request.
pub fn asset_key(ra: &ResolvedAsset) -> (r: String)
    ensures
        r@ == spec_asset_key(*ra),
{
    let size: &str = if ra.is_large {
        "large"
    } else {
        "small"
    };
    let variant: &str = if ra.is_shiny {
        "shiny"
    } else {
        "regular"
    };
    let key = String::from_str(size).concat("/").concat(variant).concat("/").concat(
        ra.display_name.as_str(),
    );
    proof {
        assert(key@ =~= spec_asset_key(*ra));
    }
    key
}

/// The title line of a rendered asset: the display name, " (shiny)" when
/// shiny, and a line break — or nothing when no title was asked for.
pub open spec fn spec_title(ra: ResolvedAsset, show_title: bool) -> Seq<char> {
    if show_title {
        ra.display_name@ + (if ra.is_shiny {
            " (shiny)"@
        } else {
            Seq::<char>::empty()
        }) + "\n"@
    } else {
        Seq::<char>::empty()
    }
}

/// Renders a resolved request against the store: looks the key up, fails
/// with `AssetNotFound` when no record has it and with `AssetNotUtf8`
/// when the record's bytes are not UTF-8, and otherwise returns the
/// optional title line followed by the decoded content verbatim.
pub fn render(store: &AssetStore, ra: &ResolvedAsset, show_title: bool) -> (r: Result<
    String,
    Error,
>)
    ensures
        ({
            let idx = spec_find(store.paths(), spec_asset_key(*ra));
            match r {
                Ok(out) => idx >= 0 && valid_utf8(store.records@[idx].data@) && exists|
                    content: Seq<char>,
                |
                    encode_utf8(content) == store.records@[idx].data@ && out@ == spec_title(
                        *ra,
                        show_title,
                    ) + content,
                Err(e) => match e {
                    Error::AssetNotFound => idx == -1,
                    Error::AssetNotUtf8 => idx >= 0 && !valid_utf8(store.records@[idx].data@),
                    _ => false,
                },
            }
        }),
{
    let key = asset_key(ra);
    let i = match store.lookup(key.as_str()) {
        Some(i) => i,
        None => {
            return Err(Error::AssetNotFound);
        },
    };
    let content = match decode_utf8(&store.records[i].data) {
        Some(c) => c,
        None => {
            return Err(Error::AssetNotUtf8);
        },
    };
    let title: String = if show_title {
        if ra.is_shiny {
            ra.display_name.clone().concat(" (shiny)").concat("\n")
        } else {
            ra.display_name.clone().concat("\n")
        }
    } else {
        String::new()
    };
    let out = title.concat(content.as_str());
    proof {
        assert(out@ =~= spec_title(*ra, show_title) + content@);
    }
    Ok(out)
}

} // verus!
