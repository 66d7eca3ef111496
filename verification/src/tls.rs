//! Client-side TLS settings of a destination.
use crate::error::{option_view, OutputError};
use crate::props::{get_string, string_at, Property};
use vstd::prelude::*;

verus! {

/// Paths of the PEM files that a TLS client uses.
#[derive(Debug)]
pub struct ClientTlsConfig {
    pub ca_path: Option<String>,
    pub cert_path: Option<String>,
    pub key_path: Option<String>,
}

/// What a [`ClientTlsConfig`] says, with the paths as sequences of characters.
pub ghost struct TlsView {
    pub ca: Option<Seq<char>>,
    pub cert: Option<Seq<char>>,
    pub key: Option<Seq<char>>,
}

impl View for ClientTlsConfig {
    type V = TlsView;

    open spec fn view(&self) -> TlsView {
        TlsView {
            ca: option_view(self.ca_path),
            cert: option_view(self.cert_path),
            key: option_view(self.key_path),
        }
    }
}

impl TlsView {
    /// A client certificate and its key come together or not at all.
    pub open spec fn paired(self) -> bool {
        self.cert is Some <==> self.key is Some
    }

    /// The settings without any file.
    pub open spec fn none() -> TlsView {
        TlsView { ca: None, cert: None, key: None }
    }
}

/// The settings that a `tls` block holds.
pub open spec fn tls_settings(props: Seq<Property>) -> TlsView {
    TlsView {
        ca: string_at(props, "ca"@),
        cert: string_at(props, "cert"@),
        key: string_at(props, "key"@),
    }
}

/// The message about a certificate without its key, or a key without its certificate.
pub open spec fn unpaired_text(label: Seq<char>) -> Seq<char> {
    label + ": cert and key must be set together"@
}

/// What a `tls` block is read as: its settings, refused where only one of
/// certificate and key is there.
pub open spec fn tls_block_result(props: Seq<Property>, label: Seq<char>) -> Result<
    TlsView,
    Seq<char>,
> {
    let settings = tls_settings(props);
    if settings.paired() {
        Ok(settings)
    } else {
        Err(unpaired_text(label))
    }
}

/// A copy of an optional text.
pub fn clone_text(o: &Option<String>) -> (r: Option<String>)
    ensures
        option_view(r) == option_view(*o),
{
    match o {
        Some(s) => Some(s.clone()),
        None => None,
    }
}

impl ClientTlsConfig {
    /// Settings without any file.
    pub fn empty() -> (c: ClientTlsConfig)
        ensures
            c@ == TlsView::none(),
    {
        ClientTlsConfig { ca_path: None, cert_path: None, key_path: None }
    }

    /// Reads the paths of a `tls` block.
    pub fn from_block(props: &[Property]) -> (c: ClientTlsConfig)
        ensures
            c@ == tls_settings(props@),
    {
        ClientTlsConfig {
            ca_path: get_string(props, "ca"),
            cert_path: get_string(props, "cert"),
            key_path: get_string(props, "key"),
        }
    }

    /// Refuses a certificate without its key and a key without its certificate.
    pub fn validate(&self, label: &str) -> (r: Result<(), OutputError>)
        ensures
            r is Ok <==> self@.paired(),
            r matches Err(e) ==> e@ == unpaired_text(label@),
    {
        if self.cert_path.is_some() == self.key_path.is_some() {
            Ok(())
        } else {
            let mut message = label.to_owned();
            message.append(": cert and key must be set together");
            Err(OutputError { message })
        }
    }

    /// A copy of these settings.
    pub fn duplicate(&self) -> (c: ClientTlsConfig)
        ensures
            c@ == self@,
    {
        ClientTlsConfig {
            ca_path: clone_text(&self.ca_path),
            cert_path: clone_text(&self.cert_path),
            key_path: clone_text(&self.key_path),
        }
    }
}

/// Reads and checks a `tls` block.
pub fn parse_tls_block(props: &[Property], label: &str) -> (r: Result<ClientTlsConfig, OutputError>)
    ensures
        crate::error::outcome(r) == tls_block_result(props@, label@),
{
    let config = ClientTlsConfig::from_block(props);
    match config.validate(label) {
        Ok(()) => Ok(config),
        Err(e) => Err(e),
    }
}

/// The profiles that a list of definitions gives; a later definition replaces an
/// earlier one of the same name.
pub open spec fn profile_map(entries: Seq<(String, ClientTlsConfig)>) -> Map<Seq<char>, TlsView>
    decreases entries.len(),
{
    if entries.len() == 0 {
        Map::empty()
    } else {
        profile_map(entries.drop_last()).insert(entries.last().0@, entries.last().1@)
    }
}

/// Named TLS settings that peers refer to.
#[derive(Debug)]
pub struct TlsProfiles {
    entries: Vec<(String, ClientTlsConfig)>,
}

impl View for TlsProfiles {
    type V = Map<Seq<char>, TlsView>;

    closed spec fn view(&self) -> Map<Seq<char>, TlsView> {
        profile_map(self.entries@)
    }
}

impl TlsProfiles {
    /// No profiles.
    pub fn new() -> (p: TlsProfiles)
        ensures
            p@ == Map::<Seq<char>, TlsView>::empty(),
    {
        TlsProfiles { entries: Vec::new() }
    }

    /// Defines a profile, in place of one of the same name.
    pub fn insert(&mut self, name: String, config: ClientTlsConfig)
        ensures
            final(self)@ == old(self)@.insert(name@, config@),
    {
        self.entries.push((name, config));
        assert(self.entries@.drop_last() =~= old(self).entries@);
    }

    /// A copy of the profile with this name.
    pub fn lookup(&self, name: &str) -> (r: Option<ClientTlsConfig>)
        ensures
            option_view(r) == if self@.contains_key(name@) {
                Some(self@[name@])
            } else {
                None
            },
    {
        let mut i: usize = self.entries.len();
        assert(self.entries@.take(i as int) =~= self.entries@);
        while i > 0
            invariant
                i <= self.entries@.len(),
                self@.contains_key(name@) == profile_map(
                    self.entries@.take(i as int),
                ).contains_key(name@),
                self@.contains_key(name@) ==> self@[name@] == profile_map(
                    self.entries@.take(i as int),
                )[name@],
            decreases i,
        {
            i = i - 1;
            assert(self.entries@.take(i + 1).drop_last() =~= self.entries@.take(i as int));
            let entry = &self.entries[i];
            if crate::text::text_eq(entry.0.as_str(), name) {
                return Some(entry.1.duplicate());
            }
        }
        None
    }
}

} // verus!
