//! The owned record model: one fully parsed server line per record.
//!
//! The wire grammar itself is owned by an external parser; this module only
//! models the structured interpretation that the correlation layer reads.

use vstd::prelude::*;

verus! {

/// The tag a client chose for one command; compared for exact equality
/// against the tag on a tagged completion line.
#[derive(Clone, Debug, PartialEq, Eq, Hash)]
pub struct RequestId(pub String);

impl View for RequestId {
    type V = Seq<char>;

    open spec fn view(&self) -> Seq<char> {
        self.0@
    }
}

/// One resource-usage triple inside a quota record.
#[derive(Clone, Debug, PartialEq, Eq)]
pub struct QuotaResource {
    pub name: String,
    pub usage: u64,
    pub limit: u64,
}

pub struct QuotaResourceView {
    pub name: Seq<char>,
    pub usage: u64,
    pub limit: u64,
}

impl View for QuotaResource {
    type V = QuotaResourceView;

    open spec fn view(&self) -> QuotaResourceView {
        QuotaResourceView { name: self.name@, usage: self.usage, limit: self.limit }
    }
}

/// A quota record: a quota-root name plus its resource-usage triples.
#[derive(Clone, Debug, PartialEq, Eq)]
pub struct Quota {
    pub root_name: String,
    pub resources: Vec<QuotaResource>,
}

pub struct QuotaView {
    pub root_name: Seq<char>,
    pub resources: Seq<QuotaResourceView>,
}

impl View for Quota {
    type V = QuotaView;

    open spec fn view(&self) -> QuotaView {
        QuotaView {
            root_name: self.root_name@,
            resources: self.resources@.map_values(|r: QuotaResource| r@),
        }
    }
}

/// A quota-root record: a mailbox and the quota roots it belongs to.
#[derive(Clone, Debug, PartialEq, Eq)]
pub struct QuotaRoot {
    pub mailbox_name: String,
    pub quota_root_names: Vec<String>,
}

pub struct QuotaRootView {
    pub mailbox_name: Seq<char>,
    pub quota_root_names: Seq<Seq<char>>,
}

impl View for QuotaRoot {
    type V = QuotaRootView;

    open spec fn view(&self) -> QuotaRootView {
        QuotaRootView {
            mailbox_name: self.mailbox_name@,
            quota_root_names: self.quota_root_names@.map_values(|s: String| s@),
        }
    }
}

/// An owned, immutable record holding the structured interpretation of one
/// received server line. Only the variants this layer reads are distinguished;
/// every other line is carried as `Other`.
#[derive(Clone, Debug, PartialEq, Eq)]
pub enum ResponseData {
    /// Quota data for one quota root.
    Quota(Quota),
    /// Quota-root data for one mailbox.
    QuotaRoot(QuotaRoot),
    /// One entry of a mailbox listing: attribute flags, an optional hierarchy
    /// delimiter, and the mailbox name.
    MailboxList { flags: Vec<String>, delimiter: Option<String>, name: String },
    /// The tagged completion line for the command with the given tag.
    Done { tag: RequestId },
    /// Any other server line; kept whole so it can be routed unchanged.
    Other { text: String },
}

pub enum ResponseView {
    Quota(QuotaView),
    QuotaRoot(QuotaRootView),
    MailboxList { flags: Seq<Seq<char>>, delimiter: Option<Seq<char>>, name: Seq<char> },
    Done { tag: Seq<char> },
    Other { text: Seq<char> },
}

pub open spec fn opt_str_view(o: Option<String>) -> Option<Seq<char>> {
    match o {
        Some(s) => Some(s@),
        None => None,
    }
}

impl View for ResponseData {
    type V = ResponseView;

    open spec fn view(&self) -> ResponseView {
        match self {
            ResponseData::Quota(q) => ResponseView::Quota(q@),
            ResponseData::QuotaRoot(r) => ResponseView::QuotaRoot(r@),
            ResponseData::MailboxList { flags, delimiter, name } => ResponseView::MailboxList {
                flags: flags@.map_values(|s: String| s@),
                delimiter: opt_str_view(*delimiter),
                name: name@,
            },
            ResponseData::Done { tag } => ResponseView::Done { tag: tag@ },
            ResponseData::Other { text } => ResponseView::Other { text: text@ },
        }
    }
}

/// The views of a sequence of records.
pub open spec fn records_view(s: Seq<ResponseData>) -> Seq<ResponseView> {
    s.map_values(|r: ResponseData| r@)
}

} // verus!
