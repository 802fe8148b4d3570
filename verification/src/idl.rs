//! Discriminators for the entries of an IDL document: a stored value where
//! the document carries one of at least eight bytes, a computed one
//! otherwise.

use vstd::prelude::*;
use vstd::string::*;

use crate::hasher::{discriminator_of, first_eight, get_hash, EVENT_NAMESPACE, GLOBAL_NAMESPACE};

verus! {

/// Which of the two collections of a document an entry belongs to.
#[derive(Debug, Clone, Copy, PartialEq, Eq, Structural)]
pub enum EntryKind {
    Instruction,
    Event,
}

impl EntryKind {
    /// The namespace under which entries of this kind are hashed.
    pub open spec fn namespace_of(self) -> Seq<char> {
        match self {
            EntryKind::Instruction => GLOBAL_NAMESPACE@,
            EntryKind::Event => EVENT_NAMESPACE@,
        }
    }

    /// Whether names of this kind are hashed verbatim.
    pub open spec fn is_event_of(self) -> bool {
        self is Event
    }

    /// The namespace under which entries of this kind are hashed.
    pub fn namespace(self) -> (out: &'static str)
        ensures
            out@ == self.namespace_of(),
    {
        match self {
            EntryKind::Instruction => GLOBAL_NAMESPACE,
            EntryKind::Event => EVENT_NAMESPACE,
        }
    }

    /// Whether names of this kind are hashed verbatim.
    pub fn is_event(self) -> (out: bool)
        ensures
            out == self.is_event_of(),
    {
        match self {
            EntryKind::Instruction => false,
            EntryKind::Event => true,
        }
    }
}

/// One instruction or event of a document.
#[derive(Debug, Clone, PartialEq, Eq)]
pub struct IdlEntry {
    pub name: String,
    /// The discriminator that the document stores for the entry, if any.
    pub discriminator: Option<Vec<u8>>,
}

/// What an entry holds, as plain values.
pub struct EntryView {
    pub name: Seq<char>,
    pub stored: Option<Seq<u8>>,
}

impl View for IdlEntry {
    type V = EntryView;

    open spec fn view(&self) -> EntryView {
        EntryView { name: self.name@, stored: self.discriminator.deep_view() }
    }
}

/// The metadata block of a document.
#[derive(Debug, Clone, PartialEq, Eq)]
pub struct IdlMetadata {
    pub name: String,
    pub version: String,
}

/// A parsed IDL document.
#[derive(Debug, Clone, PartialEq, Eq)]
pub struct Idl {
    pub name: Option<String>,
    pub version: Option<String>,
    pub metadata: Option<IdlMetadata>,
    pub instructions: Vec<IdlEntry>,
    pub events: Vec<IdlEntry>,
}

/// What a document holds, as plain values.
pub struct IdlView {
    pub name: Option<Seq<char>>,
    pub version: Option<Seq<char>>,
    /// Name and version of the metadata block.
    pub metadata: Option<(Seq<char>, Seq<char>)>,
    pub instructions: Seq<EntryView>,
    pub events: Seq<EntryView>,
}

/// The entries of a collection, as plain values.
pub open spec fn entries_of(entries: Seq<IdlEntry>) -> Seq<EntryView> {
    Seq::new(entries.len(), |i: int| entries[i]@)
}

impl View for Idl {
    type V = IdlView;

    open spec fn view(&self) -> IdlView {
        IdlView {
            name: self.name.deep_view(),
            version: self.version.deep_view(),
            metadata: match self.metadata {
                Some(m) => Some((m.name@, m.version@)),
                None => None,
            },
            instructions: entries_of(self.instructions@),
            events: entries_of(self.events@),
        }
    }
}

/// An entry's name with the discriminator chosen for it.
#[derive(Debug, Clone, PartialEq, Eq)]
pub struct Resolved {
    pub name: String,
    pub discriminator: [u8; 8],
}

/// A resolved entry, as plain values.
pub struct ResolvedView {
    pub name: Seq<char>,
    pub discriminator: Seq<u8>,
}

impl View for Resolved {
    type V = ResolvedView;

    open spec fn view(&self) -> ResolvedView {
        ResolvedView { name: self.name@, discriminator: self.discriminator@ }
    }
}

/// The outcome of a query on a document.
#[derive(Debug, Clone, PartialEq, Eq)]
pub enum Resolution {
    /// The requested entry, with its discriminator.
    Found { kind: EntryKind, entry: Resolved },
    /// No entry has the requested name `target`; the names that exist are
    /// listed in document order.
    NotFound { kind: EntryKind, target: String, available: Vec<String> },
    /// Every instruction and every event, in document order.
    All { instructions: Vec<Resolved>, events: Vec<Resolved> },
}

/// An outcome, as plain values.
pub enum ResolutionView {
    Found { kind: EntryKind, entry: ResolvedView },
    NotFound { kind: EntryKind, target: Seq<char>, available: Seq<Seq<char>> },
    All { instructions: Seq<ResolvedView>, events: Seq<ResolvedView> },
}

/// A list of resolved entries, as plain values.
pub open spec fn resolved_list_of(list: Seq<Resolved>) -> Seq<ResolvedView> {
    Seq::new(list.len(), |i: int| list[i]@)
}

impl View for Resolution {
    type V = ResolutionView;

    open spec fn view(&self) -> ResolutionView {
        match *self {
            Resolution::Found { kind, entry } => ResolutionView::Found { kind, entry: entry@ },
            Resolution::NotFound { kind, target, available } => ResolutionView::NotFound {
                kind,
                target: target@,
                available: available.deep_view(),
            },
            Resolution::All { instructions, events } => ResolutionView::All {
                instructions: resolved_list_of(instructions@),
                events: resolved_list_of(events@),
            },
        }
    }
}

/// The placeholder reported for a document that names no program or version.
pub const UNKNOWN: &'static str = "Unknown";

/// The program name: from the metadata block if there is one, else the
/// top-level name, else the placeholder.
pub open spec fn program_name_of(idl: IdlView) -> Seq<char> {
    match idl.metadata {
        Some(m) => m.0,
        None => match idl.name {
            Some(name) => name,
            None => UNKNOWN@,
        },
    }
}

/// The program version: from the metadata block if there is one, else the
/// top-level version, else the placeholder.
pub open spec fn program_version_of(idl: IdlView) -> Seq<char> {
    match idl.metadata {
        Some(m) => m.1,
        None => match idl.version {
            Some(version) => version,
            None => UNKNOWN@,
        },
    }
}

/// The stored discriminator that counts: the leading eight bytes of a stored
/// sequence of at least eight bytes. A shorter one counts as absent.
pub open spec fn stored_prefix_of(stored: Option<Seq<u8>>) -> Option<Seq<u8>> {
    match stored {
        Some(bytes) => if bytes.len() >= 8 {
            Some(first_eight(bytes))
        } else {
            None
        },
        None => None,
    }
}

/// The discriminator of an entry: the stored one where it counts, else the
/// hash of the entry's name under the namespace of its kind.
pub open spec fn entry_discriminator_of(entry: EntryView, kind: EntryKind) -> Seq<u8> {
    match stored_prefix_of(entry.stored) {
        Some(prefix) => prefix,
        None => discriminator_of(kind.namespace_of(), entry.name, kind.is_event_of()),
    }
}

/// An entry with its discriminator.
pub open spec fn resolved_of(entry: EntryView, kind: EntryKind) -> ResolvedView {
    ResolvedView { name: entry.name, discriminator: entry_discriminator_of(entry, kind) }
}

/// Whether `at` is the position of the first entry named `target`.
pub open spec fn is_first_match(entries: Seq<EntryView>, target: Seq<char>, at: int) -> bool {
    &&& 0 <= at < entries.len()
    &&& entries[at].name == target
    &&& forall|j: int| 0 <= j < at ==> (#[trigger] entries[j]).name != target
}

/// Whether some entry is named `target`.
pub open spec fn has_match(entries: Seq<EntryView>, target: Seq<char>) -> bool {
    exists|at: int| is_first_match(entries, target, at)
}

/// The names of the entries, in order.
pub open spec fn names_of(entries: Seq<EntryView>) -> Seq<Seq<char>> {
    Seq::new(entries.len(), |i: int| entries[i].name)
}

/// Every entry with its discriminator, in order.
pub open spec fn listing_of(entries: Seq<EntryView>, kind: EntryKind) -> Seq<ResolvedView> {
    Seq::new(entries.len(), |i: int| resolved_of(entries[i], kind))
}

/// The outcome of looking for `target` among `entries`: the first entry of
/// that name, or the name asked for with all the names there are.
pub open spec fn lookup_of(
    entries: Seq<EntryView>,
    kind: EntryKind,
    target: Seq<char>,
) -> ResolutionView {
    if has_match(entries, target) {
        let at = choose|at: int| is_first_match(entries, target, at);
        ResolutionView::Found { kind, entry: resolved_of(entries[at], kind) }
    } else {
        ResolutionView::NotFound { kind, target, available: names_of(entries) }
    }
}

/// The outcome of a query. A requested instruction is looked up first; an
/// event only if no instruction was requested; with neither, everything is
/// listed.
pub open spec fn resolution_of(
    idl: IdlView,
    instruction: Option<Seq<char>>,
    event: Option<Seq<char>>,
) -> ResolutionView {
    match instruction {
        Some(target) => lookup_of(idl.instructions, EntryKind::Instruction, target),
        None => match event {
            Some(target) => lookup_of(idl.events, EntryKind::Event, target),
            None => ResolutionView::All {
                instructions: listing_of(idl.instructions, EntryKind::Instruction),
                events: listing_of(idl.events, EntryKind::Event),
            },
        },
    }
}

impl IdlEntry {
    /// The stored discriminator, where the document gives one of at least
    /// eight bytes: its leading eight bytes. A shorter one is passed over.
    pub fn stored_discriminator(&self) -> (out: Option<[u8; 8]>)
        ensures
            out.deep_view() == stored_prefix_of(self@.stored),
    {
        match &self.discriminator {
            Some(bytes) => {
                if bytes.len() >= 8 {
                    let prefix: [u8; 8] = [
                        bytes[0],
                        bytes[1],
                        bytes[2],
                        bytes[3],
                        bytes[4],
                        bytes[5],
                        bytes[6],
                        bytes[7],
                    ];
                    assert(prefix@ =~= first_eight(bytes@));
                    Some(prefix)
                } else {
                    None
                }
            },
            None => None,
        }
    }

    /// The discriminator to report for this entry: the stored one where it
    /// counts, and only otherwise the hash of the name.
    pub fn resolve_discriminator(&self, kind: EntryKind) -> (out: [u8; 8])
        ensures
            out@ == entry_discriminator_of(self@, kind),
    {
        match self.stored_discriminator() {
            Some(prefix) => prefix,
            None => get_hash(kind.namespace(), self.name.as_str(), kind.is_event()),
        }
    }

    /// This entry's name together with its discriminator.
    pub fn resolve(&self, kind: EntryKind) -> (out: Resolved)
        ensures
            out@ == resolved_of(self@, kind),
    {
        Resolved { name: self.name.clone(), discriminator: self.resolve_discriminator(kind) }
    }
}

/// The position of the first entry named `target`, if there is one.
pub fn find_entry(entries: &Vec<IdlEntry>, target: &str) -> (out: Option<usize>)
    ensures
        match out {
            Some(at) => is_first_match(entries_of(entries@), target@, at as int),
            None => !has_match(entries_of(entries@), target@),
        },
{
    let wanted = String::from_str(target);
    let mut i: usize = 0;
    while i < entries.len()
        invariant
            i <= entries.len(),
            wanted@ == target@,
            forall|j: int| 0 <= j < i ==> (#[trigger] entries_of(entries@)[j]).name != target@,
        decreases entries.len() - i,
    {
        if entries[i].name == wanted {
            assert(entries_of(entries@)[i as int].name == target@);
            return Some(i);
        }
        assert(entries_of(entries@)[i as int].name != target@);
        i += 1;
    }
    assert forall|at: int| !is_first_match(entries_of(entries@), target@, at) by {
        if 0 <= at < entries.len() {
            assert(entries_of(entries@)[at].name != target@);
        }
    }
    None
}

/// The names of all entries, in document order.
pub fn entry_names(entries: &Vec<IdlEntry>) -> (out: Vec<String>)
    ensures
        out.deep_view() == names_of(entries_of(entries@)),
{
    let mut out: Vec<String> = Vec::new();
    let mut i: usize = 0;
    while i < entries.len()
        invariant
            i <= entries.len(),
            out.len() == i,
            forall|j: int| 0 <= j < i ==> (#[trigger] out[j])@ == entries[j].name@,
        decreases entries.len() - i,
    {
        out.push(entries[i].name.clone());
        i += 1;
    }
    assert(out.deep_view() =~= names_of(entries_of(entries@)));
    out
}

/// Every entry with its discriminator, in document order.
pub fn list_entries(entries: &Vec<IdlEntry>, kind: EntryKind) -> (out: Vec<Resolved>)
    ensures
        resolved_list_of(out@) == listing_of(entries_of(entries@), kind),
{
    let mut out: Vec<Resolved> = Vec::new();
    let mut i: usize = 0;
    while i < entries.len()
        invariant
            i <= entries.len(),
            out.len() == i,
            forall|j: int| 0 <= j < i ==> (#[trigger] out[j])@ == resolved_of(entries[j]@, kind),
        decreases entries.len() - i,
    {
        out.push(entries[i].resolve(kind));
        i += 1;
    }
    assert(resolved_list_of(out@) =~= listing_of(entries_of(entries@), kind));
    out
}

/// Only one position can be that of the first entry with a given name.
pub proof fn lemma_first_match_unique(
    entries: Seq<EntryView>,
    target: Seq<char>,
    at: int,
    other: int,
)
    requires
        is_first_match(entries, target, at),
        is_first_match(entries, target, other),
    ensures
        at == other,
{
    if at < other {
        assert(entries[at].name != target);
    }
    if other < at {
        assert(entries[other].name != target);
    }
}

/// Looks for the first entry named `target`. Found, it is returned with its
/// discriminator; otherwise the outcome repeats the name asked for and lists
/// the names that exist.
pub fn lookup(entries: &Vec<IdlEntry>, kind: EntryKind, target: &str) -> (out: Resolution)
    ensures
        out@ == lookup_of(entries_of(entries@), kind, target@),
{
    match find_entry(entries, target) {
        Some(at) => {
            let entry = entries[at].resolve(kind);
            proof {
                let views = entries_of(entries@);
                assert(has_match(views, target@));
                let chosen = choose|c: int| is_first_match(views, target@, c);
                lemma_first_match_unique(views, target@, at as int, chosen);
            }
            Resolution::Found { kind, entry }
        },
        None => Resolution::NotFound {
            kind,
            target: String::from_str(target),
            available: entry_names(entries),
        },
    }
}

impl Idl {
    /// The program name: the metadata block's if there is one, else the
    /// top-level name, else `"Unknown"`.
    pub fn program_name(&self) -> (out: String)
        ensures
            out@ == program_name_of(self@),
    {
        match &self.metadata {
            Some(metadata) => metadata.name.clone(),
            None => match &self.name {
                Some(name) => name.clone(),
                None => String::from_str(UNKNOWN),
            },
        }
    }

    /// The program version: the metadata block's if there is one, else the
    /// top-level version, else `"Unknown"`.
    pub fn program_version(&self) -> (out: String)
        ensures
            out@ == program_version_of(self@),
    {
        match &self.metadata {
            Some(metadata) => metadata.version.clone(),
            None => match &self.version {
                Some(version) => version.clone(),
                None => String::from_str(UNKNOWN),
            },
        }
    }

    /// Answers a query on the document. With an instruction name, that
    /// instruction is looked up and any event name is ignored; with an event
    /// name alone, that event is looked up; with neither, all instructions
    /// and all events are listed in document order.
    pub fn resolve(&self, instruction: Option<&str>, event: Option<&str>) -> (out: Resolution)
        ensures
            out@ == resolution_of(self@, instruction.deep_view(), event.deep_view()),
    {
        match instruction {
            Some(target) => lookup(&self.instructions, EntryKind::Instruction, target),
            None => match event {
                Some(target) => lookup(&self.events, EntryKind::Event, target),
                None => Resolution::All {
                    instructions: list_entries(&self.instructions, EntryKind::Instruction),
                    events: list_entries(&self.events, EntryKind::Event),
                },
            },
        }
    }
}

/// A stored discriminator of at least eight bytes is what an entry resolves
/// to, cut to its leading eight bytes, whatever the hash of the name is.
pub proof fn lemma_stored_discriminator_wins(entry: EntryView, kind: EntryKind)
    requires
        entry.stored is Some,
        entry.stored->0.len() >= 8,
    ensures
        entry_discriminator_of(entry, kind) == first_eight(entry.stored->0),
        entry_discriminator_of(entry, kind) == entry.stored->0.take(8),
        entry.stored->0.len() == 8 ==> entry_discriminator_of(entry, kind) == entry.stored->0,
{
    assert(first_eight(entry.stored->0) =~= entry.stored->0.take(8));
    if entry.stored->0.len() == 8 {
        assert(first_eight(entry.stored->0) =~= entry.stored->0);
    }
}

/// Without a stored discriminator of at least eight bytes, an entry resolves
/// to the hash of its name: instructions under `global` in snake case,
/// events under `event` verbatim.
pub proof fn lemma_short_or_absent_is_computed(entry: EntryView, kind: EntryKind)
    requires
        entry.stored is None || entry.stored->0.len() < 8,
    ensures
        entry_discriminator_of(entry, kind) == discriminator_of(
            kind.namespace_of(),
            entry.name,
            kind is Event,
        ),
{
}

} // verus!
