//! Feed content and its provenance marker.
//!
//! The worker treats feed content as opaque: the only part it reads or
//! writes is the generator metadata, which it overwrites with a fixed
//! provenance marker on every freshly generated feed. `Feed::content`
//! stands for everything else in the document.

use vstd::prelude::*;
use vstd::string::*;

verus! {

/// Generator metadata carried by a feed: a producer name, an optional
/// homepage, and an optional version.
#[derive(Debug, PartialEq, Eq)]
pub struct FeedGeneratorInfo {
    pub value: String,
    pub uri: Option<String>,
    pub version: Option<String>,
}

/// Mathematical value of [`FeedGeneratorInfo`].
pub struct FeedGeneratorInfoView {
    pub value: Seq<char>,
    pub uri: Option<Seq<char>>,
    pub version: Option<Seq<char>>,
}

impl View for FeedGeneratorInfo {
    type V = FeedGeneratorInfoView;

    open spec fn view(&self) -> FeedGeneratorInfoView {
        FeedGeneratorInfoView {
            value: self.value@,
            uri: match self.uri {
                Some(u) => Some(u@),
                None => None,
            },
            version: match self.version {
                Some(v) => Some(v@),
                None => None,
            },
        }
    }
}

impl Clone for FeedGeneratorInfo {
    fn clone(&self) -> (r: Self)
        ensures
            r@ == self@,
    {
        FeedGeneratorInfo {
            value: self.value.clone(),
            uri: match &self.uri {
                Some(u) => Some(u.clone()),
                None => None,
            },
            version: match &self.version {
                Some(v) => Some(v.clone()),
                None => None,
            },
        }
    }
}

/// Feed content as the worker sees it: an opaque body plus the
/// generator metadata the worker stamps.
#[derive(Debug, PartialEq, Eq)]
pub struct Feed {
    pub content: String,
    pub generator: Option<FeedGeneratorInfo>,
}

/// Mathematical value of [`Feed`].
pub struct FeedView {
    pub content: Seq<char>,
    pub generator: Option<FeedGeneratorInfoView>,
}

impl View for Feed {
    type V = FeedView;

    open spec fn view(&self) -> FeedView {
        FeedView {
            content: self.content@,
            generator: match self.generator {
                Some(g) => Some(g@),
                None => None,
            },
        }
    }
}

impl Clone for Feed {
    fn clone(&self) -> (r: Self)
        ensures
            r@ == self@,
    {
        Feed {
            content: self.content.clone(),
            generator: match &self.generator {
                Some(g) => Some(g.clone()),
                None => None,
            },
        }
    }
}

/// The fixed provenance marker: producer name and homepage, no version.
pub open spec fn provenance_marker() -> FeedGeneratorInfoView {
    FeedGeneratorInfoView {
        value: "Nabu"@,
        uri: Some("https://github.com/DCjanus/nabu"@),
        version: None,
    }
}

/// A feed after stamping: same content, generator metadata replaced by
/// the provenance marker.
pub open spec fn stamped(f: FeedView) -> FeedView {
    FeedView { content: f.content, generator: Some(provenance_marker()) }
}

/// Overwrites the feed's generator metadata with the fixed provenance
/// marker, leaving the content untouched.
pub fn stamp_provenance(feed: &mut Feed)
    ensures
        final(feed)@ == stamped(old(feed)@),
{
    feed.generator = Some(FeedGeneratorInfo {
        value: String::from_str("Nabu"),
        uri: Some(String::from_str("https://github.com/DCjanus/nabu")),
        version: None,
    });
}

} // verus!
