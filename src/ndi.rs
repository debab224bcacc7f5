use vstd::prelude::*;

use crate::keyed::{find_key, key_map, lemma_key_map_at, remove_key, unique_keys, upsert, Keyed};
use crate::text::joined;
use crate::timecode::{decimal_digits, decimal_text};

verus! {

/// A media source found on the network, or added by hand.
#[derive(Debug, Clone)]
pub struct NdiSource {
    pub name: String,
    pub address: String,
    pub port: u16,
    pub groups: Vec<String>,
    pub url: Option<String>,
}

impl Keyed for NdiSource {
    open spec fn spec_key(&self) -> Seq<char> {
        self.name@
    }

    fn key(&self) -> (r: &String) {
        &self.name
    }
}

/// `ndi://<address>:<port>/<name>`.
pub open spec fn source_url(name: Seq<char>, address: Seq<char>, port: u16) -> Seq<char> {
    "ndi://"@ + address + ":"@ + decimal_text(port as nat) + "/"@ + name
}

/// A source with no groups whose URL is built from its parts.
pub open spec fn is_source(s: NdiSource, name: Seq<char>, address: Seq<char>, port: u16) -> bool {
    &&& s.name@ == name
    &&& s.address@ == address
    &&& s.port == port
    &&& s.groups@.len() == 0
    &&& s.url matches Some(u) && u@ == source_url(name, address, port)
}

/// Builds the source `name` at `address:port`.
pub fn make_source(name: &String, address: &String, port: u16) -> (r: NdiSource)
    ensures
        is_source(r, name@, address@, port),
{
    let head = joined("ndi://", address.as_str(), ":");
    let digits = decimal_digits(port);
    let tail = joined(digits.as_str(), "/", name.as_str());
    let url = joined(head.as_str(), tail.as_str(), "");
    proof {
        reveal_strlit("");
        assert(url@ =~= source_url(name@, address@, port));
    }
    NdiSource { name: name.clone(), address: address.clone(), port, groups: Vec::new(), url: Some(url) }
}

/// The media sources known by name, whether discovery runs, and the
/// sources found or added that are not yet handed to subscribers.
pub struct NdiManager {
    sources: Vec<NdiSource>,
    discovery_active: bool,
    announced: Vec<NdiSource>,
}

impl NdiManager {
    pub closed spec fn sources_view(&self) -> Seq<NdiSource> {
        self.sources@
    }

    pub closed spec fn announced_view(&self) -> Seq<NdiSource> {
        self.announced@
    }

    pub closed spec fn spec_discovery_active(&self) -> bool {
        self.discovery_active
    }

    pub open spec fn source_map(&self) -> Map<Seq<char>, NdiSource> {
        key_map(self.sources_view())
    }

    /// Source names are unique.
    pub open spec fn wf(&self) -> bool {
        unique_keys(self.sources_view())
    }

    pub fn new() -> (r: Self)
        ensures
            r.wf(),
            r.source_map().is_empty(),
            r.sources_view().len() == 0,
            r.announced_view().len() == 0,
            !r.spec_discovery_active(),
    {
        let r = NdiManager { sources: Vec::new(), discovery_active: false, announced: Vec::new() };
        assert(r.source_map() =~= Map::empty());
        r
    }

    /// Marks discovery as running; returns whether it was stopped before,
    /// that is, whether a browse has to be started.
    pub fn start_discovery(&mut self) -> (r: bool)
        ensures
            r == !old(self).spec_discovery_active(),
            final(self).spec_discovery_active(),
            final(self).sources_view() == old(self).sources_view(),
            final(self).announced_view() == old(self).announced_view(),
    {
        let was_stopped = !self.discovery_active;
        self.discovery_active = true;
        was_stopped
    }

    pub fn stop_discovery(&mut self)
        ensures
            !final(self).spec_discovery_active(),
            final(self).sources_view() == old(self).sources_view(),
            final(self).announced_view() == old(self).announced_view(),
    {
        self.discovery_active = false;
    }

    pub fn is_discovery_active(&self) -> (r: bool)
        ensures
            r == self.spec_discovery_active(),
    {
        self.discovery_active
    }

    /// Every source, in no particular order.
    pub fn get_sources(&self) -> (r: Vec<&NdiSource>)
        ensures
            r@.len() == self.sources_view().len(),
            forall|i: int| 0 <= i < r@.len() ==> *r@[i] == self.sources_view()[i],
    {
        let mut r: Vec<&NdiSource> = Vec::new();
        let mut i: usize = 0;
        while i < self.sources.len()
            invariant
                i <= self.sources@.len(),
                r@.len() == i,
                forall|j: int| 0 <= j < i ==> *r@[j] == self.sources@[j],
            decreases self.sources@.len() - i,
        {
            r.push(&self.sources[i]);
            i += 1;
        }
        r
    }

    pub fn get_source(&self, name: &str) -> (r: Option<&NdiSource>)
        requires
            self.wf(),
        ensures
            match r {
                Some(s) => self.source_map().contains_key(name@) && *s == self.source_map()[name@],
                None => !self.source_map().contains_key(name@),
            },
    {
        let key = name.to_owned();
        match find_key(&self.sources, &key) {
            Some(i) => {
                proof {
                    lemma_key_map_at(self.sources@, i as int);
                }
                Some(&self.sources[i])
            },
            None => None,
        }
    }

    /// Stores the source `name` at `address:port`, replacing one of that
    /// name, announces it, and returns it.
    pub fn add_manual_source(&mut self, name: String, address: String, port: u16) -> (r: NdiSource)
        requires
            old(self).wf(),
        ensures
            final(self).wf(),
            is_source(r, name@, address@, port),
            final(self).source_map().contains_key(name@),
            is_source(final(self).source_map()[name@], name@, address@, port),
            final(self).source_map() == old(self).source_map().insert(
                name@,
                final(self).source_map()[name@],
            ),
            final(self).announced_view().len() == old(self).announced_view().len() + 1,
            final(self).announced_view().drop_last() == old(self).announced_view(),
            is_source(final(self).announced_view().last(), name@, address@, port),
            final(self).spec_discovery_active() == old(self).spec_discovery_active(),
    {
        let stored = make_source(&name, &address, port);
        let ghost entry = stored;
        upsert(&mut self.sources, stored);
        proof {
            assert(self.source_map().contains_key(entry.name@));
        }
        let ghost before = self.announced@;
        self.announced.push(make_source(&name, &address, port));
        assert(self.announced@.drop_last() =~= before);
        make_source(&name, &address, port)
    }

    /// Takes in a resolved record: the source under its full name at its
    /// first address, if it has one.
    pub fn handle_source_resolved(&mut self, full_name: String, address: Option<String>, port: u16)
        requires
            old(self).wf(),
        ensures
            final(self).wf(),
            match address {
                Some(a) => {
                    &&& final(self).source_map().contains_key(full_name@)
                    &&& is_source(final(self).source_map()[full_name@], full_name@, a@, port)
                    &&& final(self).source_map() == old(self).source_map().insert(
                        full_name@,
                        final(self).source_map()[full_name@],
                    )
                },
                None => final(self).sources_view() == old(self).sources_view(),
            },
    {
        if let Some(a) = address {
            let _ = self.add_manual_source(full_name, a, port);
        }
    }

    /// Removes the source `name`; returns whether there was one.
    pub fn remove_source(&mut self, name: &str) -> (r: bool)
        requires
            old(self).wf(),
        ensures
            final(self).wf(),
            r == old(self).source_map().contains_key(name@),
            final(self).source_map() == old(self).source_map().remove(name@),
            final(self).announced_view() == old(self).announced_view(),
    {
        let key = name.to_owned();
        let removed = remove_key(&mut self.sources, &key);
        removed.is_some()
    }

    /// Hands out the pending announcements, oldest first, and forgets them.
    pub fn drain_announcements(&mut self) -> (r: Vec<NdiSource>)
        ensures
            r@ == old(self).announced_view(),
            final(self).announced_view().len() == 0,
            final(self).sources_view() == old(self).sources_view(),
            final(self).spec_discovery_active() == old(self).spec_discovery_active(),
    {
        let mut out: Vec<NdiSource> = Vec::new();
        std::mem::swap(&mut out, &mut self.announced);
        out
    }
}

impl Default for NdiManager {
    fn default() -> (r: Self)
        ensures
            r.wf(),
            r.sources_view().len() == 0,
            r.announced_view().len() == 0,
            !r.spec_discovery_active(),
    {
        Self::new()
    }
}

/// A receiver bound to one source. Connecting is done over the network by
/// the caller, which then records the outcome here.
pub struct NdiReceiver {
    source: NdiSource,
    connected: bool,
}

impl NdiReceiver {
    pub closed spec fn source_view(&self) -> NdiSource {
        self.source
    }

    pub closed spec fn spec_connected(&self) -> bool {
        self.connected
    }

    pub fn new(source: NdiSource) -> (r: Self)
        ensures
            r.source_view() == source,
            !r.spec_connected(),
    {
        NdiReceiver { source, connected: false }
    }

    /// Records the outcome of a connection attempt.
    pub fn set_connected(&mut self, connected: bool)
        ensures
            final(self).spec_connected() == connected,
            final(self).source_view() == old(self).source_view(),
    {
        self.connected = connected;
    }

    pub fn disconnect(&mut self)
        ensures
            !final(self).spec_connected(),
            final(self).source_view() == old(self).source_view(),
    {
        self.connected = false;
    }

    pub fn is_connected(&self) -> (r: bool)
        ensures
            r == self.spec_connected(),
    {
        self.connected
    }

    pub fn get_source(&self) -> (r: &NdiSource)
        ensures
            *r == self.source_view(),
    {
        &self.source
    }
}

} // verus!
