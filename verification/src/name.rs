//! Mailbox-listing views: name-attribute classification and the `Name` type.
//!
//! A `Name` is built from one mailbox-listing record and exposes the record's
//! attribute flags (classified into a closed vocabulary plus an open `Custom`
//! fallback), its optional hierarchy delimiter, and its display name. The
//! record is owned by the `Name`; the exposed fields are extracted once at
//! construction, a deliberate copy-for-safety trade against zero-copy
//! aliasing, and the accessors themselves allocate nothing.

use vstd::prelude::*;

use crate::response::{ResponseData, ResponseView};

verus! {

/// The special-use mailbox attributes of the LIST extension for
/// special-use mailboxes.
#[derive(Clone, Debug, Hash, PartialEq, Eq, Structural)]
pub enum SpecialUseMailbox {
    /// Presents all messages in the message store.
    All,
    /// Used to archive messages.
    Archive,
    /// Holds draft messages.
    Drafts,
    /// Presents all messages marked as important.
    Flagged,
    /// Holds messages deemed to be junk mail.
    Junk,
    /// Holds copies of messages that have been sent.
    Sent,
    /// Holds messages that have been deleted or marked for deletion.
    Trash,
}

/// An attribute of an IMAP mailbox name.
#[derive(Clone, Debug, Hash, PartialEq, Eq)]
pub enum NameAttribute {
    /// No child level of hierarchy can exist under this name.
    NoInferiors,
    /// The name cannot be used as a selectable mailbox.
    NoSelect,
    /// The mailbox has been marked "interesting" by the server.
    Marked,
    /// The mailbox holds no additional messages since it was last selected.
    Unmarked,
    /// A special-use mailbox attribute.
    SpecialUseMailbox(SpecialUseMailbox),
    /// A non-standard user- or server-defined name attribute.
    Custom(String),
}

pub enum NameAttributeView {
    NoInferiors,
    NoSelect,
    Marked,
    Unmarked,
    SpecialUseMailbox(SpecialUseMailbox),
    Custom(Seq<char>),
}

impl View for NameAttribute {
    type V = NameAttributeView;

    open spec fn view(&self) -> NameAttributeView {
        match self {
            NameAttribute::NoInferiors => NameAttributeView::NoInferiors,
            NameAttribute::NoSelect => NameAttributeView::NoSelect,
            NameAttribute::Marked => NameAttributeView::Marked,
            NameAttribute::Unmarked => NameAttributeView::Unmarked,
            NameAttribute::SpecialUseMailbox(s) => NameAttributeView::SpecialUseMailbox(*s),
            NameAttribute::Custom(s) => NameAttributeView::Custom(s@),
        }
    }
}

/// The structural name attributes of the base protocol, by exact token.
pub open spec fn system_attr_of(s: Seq<char>) -> Option<NameAttributeView> {
    if s == "\\Noinferiors"@ {
        Some(NameAttributeView::NoInferiors)
    } else if s == "\\Noselect"@ {
        Some(NameAttributeView::NoSelect)
    } else if s == "\\Marked"@ {
        Some(NameAttributeView::Marked)
    } else if s == "\\Unmarked"@ {
        Some(NameAttributeView::Unmarked)
    } else {
        None
    }
}

/// The special-use name attributes, by exact token.
pub open spec fn special_use_attr_of(s: Seq<char>) -> Option<NameAttributeView> {
    if s == "\\All"@ {
        Some(NameAttributeView::SpecialUseMailbox(SpecialUseMailbox::All))
    } else if s == "\\Archive"@ {
        Some(NameAttributeView::SpecialUseMailbox(SpecialUseMailbox::Archive))
    } else if s == "\\Drafts"@ {
        Some(NameAttributeView::SpecialUseMailbox(SpecialUseMailbox::Drafts))
    } else if s == "\\Flagged"@ {
        Some(NameAttributeView::SpecialUseMailbox(SpecialUseMailbox::Flagged))
    } else if s == "\\Junk"@ {
        Some(NameAttributeView::SpecialUseMailbox(SpecialUseMailbox::Junk))
    } else if s == "\\Sent"@ {
        Some(NameAttributeView::SpecialUseMailbox(SpecialUseMailbox::Sent))
    } else if s == "\\Trash"@ {
        Some(NameAttributeView::SpecialUseMailbox(SpecialUseMailbox::Trash))
    } else {
        None
    }
}

/// Total classification of an attribute token: a structural attribute, else a
/// special-use attribute, else `Custom` wrapping exactly the token itself.
pub open spec fn attr_of(s: Seq<char>) -> NameAttributeView {
    match system_attr_of(s) {
        Some(a) => a,
        None => match special_use_attr_of(s) {
            Some(a) => a,
            None => NameAttributeView::Custom(s),
        },
    }
}

/// Every token outside the two closed vocabularies classifies as `Custom`,
/// wrapping exactly that token, so classification loses nothing.
pub proof fn lemma_custom_token_round_trip(s: Seq<char>)
    requires
        system_attr_of(s) is None,
        special_use_attr_of(s) is None,
    ensures
        attr_of(s) == NameAttributeView::Custom(s),
{
}

/// Classification is total: every token yields exactly one attribute, and a
/// token of either closed vocabulary yields exactly its own variant.
pub proof fn lemma_classification_total(s: Seq<char>)
    ensures
        system_attr_of(s) is Some ==> attr_of(s) == system_attr_of(s)->Some_0,
        system_attr_of(s) is None && special_use_attr_of(s) is Some ==> attr_of(s)
            == special_use_attr_of(s)->Some_0,
        system_attr_of(s) is None && special_use_attr_of(s) is None ==> attr_of(s)
            == NameAttributeView::Custom(s),
{
}

fn str_eq(a: &str, b: &str) -> (r: bool)
    ensures
        r == (a@ == b@),
{
    let owned_a: String = a.to_owned();
    let owned_b: String = b.to_owned();
    owned_a == owned_b
}

impl NameAttribute {
    /// Recognizes the special-use mailbox attribute tokens.
    pub fn special_use_mailbox(s: &str) -> (r: Option<NameAttribute>)
        ensures
            match r {
                Some(a) => special_use_attr_of(s@) == Some(a@),
                None => special_use_attr_of(s@) is None,
            },
    {
        if str_eq(s, "\\All") {
            Some(NameAttribute::SpecialUseMailbox(SpecialUseMailbox::All))
        } else if str_eq(s, "\\Archive") {
            Some(NameAttribute::SpecialUseMailbox(SpecialUseMailbox::Archive))
        } else if str_eq(s, "\\Drafts") {
            Some(NameAttribute::SpecialUseMailbox(SpecialUseMailbox::Drafts))
        } else if str_eq(s, "\\Flagged") {
            Some(NameAttribute::SpecialUseMailbox(SpecialUseMailbox::Flagged))
        } else if str_eq(s, "\\Junk") {
            Some(NameAttribute::SpecialUseMailbox(SpecialUseMailbox::Junk))
        } else if str_eq(s, "\\Sent") {
            Some(NameAttribute::SpecialUseMailbox(SpecialUseMailbox::Sent))
        } else if str_eq(s, "\\Trash") {
            Some(NameAttribute::SpecialUseMailbox(SpecialUseMailbox::Trash))
        } else {
            None
        }
    }

    /// Recognizes the structural name-attribute tokens of the base protocol.
    pub fn system(s: &str) -> (r: Option<NameAttribute>)
        ensures
            match r {
                Some(a) => system_attr_of(s@) == Some(a@),
                None => system_attr_of(s@) is None,
            },
    {
        if str_eq(s, "\\Noinferiors") {
            Some(NameAttribute::NoInferiors)
        } else if str_eq(s, "\\Noselect") {
            Some(NameAttribute::NoSelect)
        } else if str_eq(s, "\\Marked") {
            Some(NameAttribute::Marked)
        } else if str_eq(s, "\\Unmarked") {
            Some(NameAttribute::Unmarked)
        } else {
            None
        }
    }

    /// Classifies one attribute token; total, with `Custom` as the fallback.
    pub fn from(s: &str) -> (r: NameAttribute)
        ensures
            r@ == attr_of(s@),
    {
        if let Some(f) = NameAttribute::system(s) {
            f
        } else if let Some(f) = NameAttribute::special_use_mailbox(s) {
            f
        } else {
            NameAttribute::Custom(s.to_owned())
        }
    }
}

/// The fields a `Name` exposes, extracted once from its record.
#[derive(PartialEq, Eq, Debug)]
pub struct InnerName {
    attributes: Vec<NameAttribute>,
    delimiter: Option<String>,
    name: String,
}

/// A name matching one entry of a mailbox listing. It owns the record it was
/// built from; its accessors read the extracted fields without allocating.
#[derive(Debug)]
pub struct Name {
    response: ResponseData,
    inner: InnerName,
}

pub struct NameView {
    pub attributes: Seq<NameAttributeView>,
    pub delimiter: Option<Seq<char>>,
    pub name: Seq<char>,
}

impl View for Name {
    type V = NameView;

    closed spec fn view(&self) -> NameView {
        NameView {
            attributes: self.inner.attributes@.map_values(|a: NameAttribute| a@),
            delimiter: crate::response::opt_str_view(self.inner.delimiter),
            name: self.inner.name@,
        }
    }
}

impl Name {
    /// The record this name was built from and owns.
    pub closed spec fn record_view(&self) -> ResponseView {
        self.response@
    }

    /// Well-formedness: the owning record carries mailbox-listing data, and
    /// the exposed fields are exactly what that record holds, with every
    /// attribute flag classified.
    pub closed spec fn wf(&self) -> bool {
        self.response@ matches ResponseView::MailboxList { flags, delimiter, name }
            && self@.attributes == flags.map_values(|f: Seq<char>| attr_of(f)) && self@.delimiter
            == delimiter && self@.name == name
    }

    /// Builds a `Name` from a record that carries mailbox-listing data,
    /// taking ownership of the record. Every attribute flag of the record is
    /// classified in order; delimiter and display name are taken verbatim.
    /// Calling this on any other record kind is a caller bug, excluded here
    /// rather than handled.
    pub fn from_mailbox_data(response: ResponseData) -> (n: Name)
        requires
            response@ is MailboxList,
        ensures
            n.wf(),
            n.record_view() == response@,
            (response@ matches ResponseView::MailboxList { flags, delimiter, name } ==> {
                &&& n@.attributes == flags.map_values(|f: Seq<char>| attr_of(f))
                &&& n@.delimiter == delimiter
                &&& n@.name == name
            }),
    {
        let inner = match &response {
            ResponseData::MailboxList { flags, delimiter, name } => {
                let mut attributes: Vec<NameAttribute> = Vec::new();
                let ghost flag_views = flags@.map_values(|s: String| s@);
                let mut i: usize = 0;
                while i < flags.len()
                    invariant
                        i <= flags.len(),
                        flag_views == flags@.map_values(|s: String| s@),
                        attributes@.len() == i,
                        forall|j: int|
                            0 <= j < i ==> attributes@[j]@ == attr_of(flag_views[j]),
                    decreases flags.len() - i,
                {
                    let a = NameAttribute::from(flags[i].as_str());
                    attributes.push(a);
                    i = i + 1;
                }
                proof {
                    assert(attributes@.map_values(|a: NameAttribute| a@) =~= flag_views.map_values(
                        |f: Seq<char>| attr_of(f),
                    ));
                }
                let delim = match delimiter {
                    Some(d) => Some(d.clone()),
                    None => None,
                };
                InnerName { attributes, delimiter: delim, name: name.clone() }
            },
            _ => unreached(),
        };
        Name { response, inner }
    }

    /// Builds a `Name` only when the record carries mailbox-listing data;
    /// any other record is handed back unchanged.
    pub fn try_from_mailbox_data(response: ResponseData) -> (r: Result<Name, ResponseData>)
        ensures
            match r {
                Ok(n) => n.wf() && n.record_view() == response@ && (response@
                    matches ResponseView::MailboxList { flags, delimiter, name } && n@.attributes
                    == flags.map_values(|f: Seq<char>| attr_of(f)) && n@.delimiter == delimiter
                    && n@.name == name),
                Err(r) => !(response@ is MailboxList) && r == response,
            },
    {
        match &response {
            ResponseData::MailboxList { .. } => Ok(Name::from_mailbox_data(response)),
            _ => Err(response),
        }
    }

    /// The record this name was built from, still whole.
    pub fn record(&self) -> (r: &ResponseData)
        ensures
            r@ == self.record_view(),
    {
        &self.response
    }

    /// Attributes of this name, one per attribute flag of the record,
    /// in arrival order.
    pub fn attributes(&self) -> (r: &Vec<NameAttribute>)
        ensures
            r@.map_values(|a: NameAttribute| a@) == self@.attributes,
    {
        &self.inner.attributes
    }

    /// The hierarchy delimiter between levels of the mailbox name, or `None`
    /// for a flat name.
    pub fn delimiter(&self) -> (r: Option<&String>)
        ensures
            match r {
                Some(d) => self@.delimiter == Some(d@),
                None => self@.delimiter is None,
            },
    {
        self.inner.delimiter.as_ref()
    }

    /// The mailbox's display name, an unambiguous left-to-right hierarchy.
    pub fn name(&self) -> (r: &String)
        ensures
            r@ == self@.name,
    {
        &self.inner.name
    }
}

} // verus!
