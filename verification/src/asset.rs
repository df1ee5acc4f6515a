//! A remote asset as the catalog lists it.

use vstd::prelude::*;
use crate::context::{keys_occur_once, AssetContext};
use crate::text::copy_texts;

verus! {

/// One entry of the remote catalog.
#[derive(Clone, Debug, PartialEq, Eq)]
pub struct RemoteAsset {
    pub identifier: String,
    pub format: String,
    pub version: i64,
    pub resource_type: String,
    pub resource_kind: String,
    pub created_at: String,
    pub bytes: u64,
    pub width: Option<u32>,
    pub height: Option<u32>,
    pub download_url: String,
    pub tags: Option<Vec<String>>,
    /// Free-form values by key; no key occurs twice.
    pub context: Option<AssetContext>,
}

/// The mathematical value of a [`RemoteAsset`].
pub ghost struct AssetView {
    pub identifier: Seq<char>,
    pub format: Seq<char>,
    pub version: i64,
    pub resource_type: Seq<char>,
    pub resource_kind: Seq<char>,
    pub created_at: Seq<char>,
    pub bytes: u64,
    pub width: Option<u32>,
    pub height: Option<u32>,
    pub download_url: Seq<char>,
    pub tags: Option<Seq<Seq<char>>>,
    pub context: Option<Seq<(Seq<char>, Seq<char>)>>,
}

impl View for RemoteAsset {
    type V = AssetView;

    open spec fn view(&self) -> AssetView {
        AssetView {
            identifier: self.identifier@,
            format: self.format@,
            version: self.version,
            resource_type: self.resource_type@,
            resource_kind: self.resource_kind@,
            created_at: self.created_at@,
            bytes: self.bytes,
            width: self.width,
            height: self.height,
            download_url: self.download_url@,
            tags: self.tags.deep_view(),
            context: self.context.deep_view(),
        }
    }
}

impl AssetView {
    /// No key occurs twice in the context.
    pub open spec fn keys_are_single(self) -> bool {
        self.context matches Some(pairs) ==> keys_occur_once(pairs)
    }
}

impl RemoteAsset {
    /// The pairs of the context, if the asset has one. No key occurs twice among them.
    pub fn context_pairs(&self) -> (r: Option<&Vec<(String, String)>>)
        ensures
            r.deep_view() == self@.context,
            self@.keys_are_single(),
    {
        match &self.context {
            Some(context) => Some(context.pairs()),
            None => None,
        }
    }

    /// Copies the asset with all of its metadata.
    pub fn duplicate(&self) -> (r: RemoteAsset)
        ensures
            r@ == self@,
    {
        let tags = match &self.tags {
            Some(t) => Some(copy_texts(t)),
            None => None,
        };
        let context = match &self.context {
            Some(c) => Some(c.duplicate()),
            None => None,
        };
        RemoteAsset {
            identifier: self.identifier.clone(),
            format: self.format.clone(),
            version: self.version,
            resource_type: self.resource_type.clone(),
            resource_kind: self.resource_kind.clone(),
            created_at: self.created_at.clone(),
            bytes: self.bytes,
            width: self.width,
            height: self.height,
            download_url: self.download_url.clone(),
            tags,
            context,
        }
    }
}

} // verus!
