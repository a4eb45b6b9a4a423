//! Carries out profile commands and provides the service client of the
//! selected account.

use vstd::prelude::*;

use crate::documents::{base64_decode, base64_decoded};
use crate::lxpapi::LxpApi;
use crate::lxpconfig::{self, ConfigModel, CredentialError, LxpConfig, Profile};
use crate::lxptypes::ApiMode;
use crate::text::{is_blank, lex_lt};

verus! {

/// The file an invoice is written to: `{date}_{profile}-invoice.pdf`.
pub open spec fn invoice_file_name(invoice_date: Seq<char>, profile_name: Seq<char>) -> Seq<char> {
    invoice_date + seq!['_'] + profile_name + seq!['-', 'i', 'n', 'v', 'o', 'i', 'c', 'e', '.', 'p', 'd', 'f']
}

/// Holds the profile store and, once needed, the service client.
pub struct LxpCommands {
    /// The loaded profile store.
    config: LxpConfig,
    /// The processing mode of service requests.
    mode: ApiMode,
    /// The client of the selected account, created on first use.
    api_ref: Option<LxpApi>,
}

impl LxpCommands {
    /// The profile store as the commands see it.
    pub closed spec fn config_view(&self) -> ConfigModel {
        self.config@
    }

    /// Where the profile store is written back.
    pub closed spec fn config_location(&self) -> Seq<char> {
        self.config.location()
    }

    /// The processing mode of service requests.
    pub closed spec fn mode_view(&self) -> ApiMode {
        self.mode
    }

    /// The stored profile names, in increasing order.
    pub closed spec fn profile_names(&self) -> Seq<Seq<char>> {
        self.config.names()
    }

    /// Whether a client has been created.
    pub closed spec fn has_client(&self) -> bool {
        self.api_ref is Some
    }

    /// The client created on first use.
    pub closed spec fn cached_client(&self) -> LxpApi {
        self.api_ref->0
    }

    /// The store is well formed and a created client uses the command mode.
    pub closed spec fn wf(&self) -> bool {
        &&& self.config.wf()
        &&& (self.api_ref matches Some(a) ==> a.mode_view() == self.mode && a.base()
            == "https://api.letterxpress.de/v3"@)
    }

    /// Starts with a loaded store and no client.
    pub fn new(config: LxpConfig, mode: ApiMode) -> (c: LxpCommands)
        requires
            config.wf(),
        ensures
            c.wf(),
            c.config_view() == config@,
            c.config_location() == config.location(),
            c.mode_view() == mode,
            !c.has_client(),
    {
        LxpCommands { config, mode, api_ref: None }
    }

    /// The profile store, for storing it after a change.
    pub fn config(&self) -> (r: &LxpConfig)
        requires
            self.wf(),
        ensures
            r.wf(),
            r@ == self.config_view(),
            r.location() == self.config_location(),
    {
        &self.config
    }

    /// Whether a service client can be had: one exists or a profile is selected.
    pub fn has_account(&self) -> (r: bool)
        requires
            self.wf(),
        ensures
            r == (self.has_client() || self.config_view().active_profile() is Some),
    {
        self.api_ref.is_some() || self.config.active().is_some()
    }

    /// The service client, created from the selected profile on first use
    /// and reused afterwards.
    pub fn api(&mut self) -> (api: LxpApi)
        requires
            old(self).wf(),
            old(self).has_client() || old(self).config_view().active_profile() is Some,
        ensures
            final(self).wf(),
            final(self).has_client(),
            final(self).config_view() == old(self).config_view(),
            final(self).mode_view() == old(self).mode_view(),
            final(self).config_location() == old(self).config_location(),
            old(self).has_client() ==> final(self).has_client() && final(self).cached_client()
                == old(self).cached_client(),
            api.mode_view() == old(self).mode_view(),
            api.base() == "https://api.letterxpress.de/v3"@,
            api == final(self).cached_client(),
            old(self).has_client() ==> api == old(self).cached_client(),
            !old(self).has_client() ==> ({
                let p = old(self).config_view().active_profile()->0;
                &&& api.user() == p.user_name@
                &&& api.key() == p.api_key@
                &&& api.base() == "https://api.letterxpress.de/v3"@
            }),
    {
        let api = match &self.api_ref {
            Some(a) => a.clone(),
            None => {
                let p = self.config.active().unwrap();
                LxpApi::new(p.user_name, p.api_key, self.mode)
            },
        };
        if self.api_ref.is_none() {
            self.api_ref = Some(api.clone());
        }
        api
    }

    /// The client of the invocation: complete environment credentials are
    /// preferred; without any, the selected profile's client is used; partial
    /// environment credentials are refused rather than mixed with a profile.
    pub fn client(&mut self, username: Option<String>, apikey: Option<String>) -> (r: Result<
        LxpApi,
        CredentialError,
    >)
        requires
            old(self).wf(),
        ensures
            final(self).wf(),
            final(self).config_view() == old(self).config_view(),
            final(self).mode_view() == old(self).mode_view(),
            final(self).config_location() == old(self).config_location(),
            old(self).has_client() ==> final(self).has_client() && final(self).cached_client()
                == old(self).cached_client(),
            r matches Ok(api) ==> api.mode_view() == old(self).mode_view(),
            match (username, apikey) {
                (Some(u), Some(k)) => r matches Ok(api) && api.user() == u@ && api.key() == k@
                    && api.base() == "https://api.letterxpress.de/v3"@,
                (None, None) => if old(self).has_client() {
                    r == Ok::<LxpApi, CredentialError>(old(self).cached_client())
                } else {
                    match old(self).config_view().active_profile() {
                        Some(p) => r matches Ok(api) && api.user() == p.user_name@ && api.key()
                            == p.api_key@ && api.base() == "https://api.letterxpress.de/v3"@,
                        None => r == Err::<LxpApi, CredentialError>(CredentialError::Missing),
                    }
                },
                _ => r == Err::<LxpApi, CredentialError>(CredentialError::Partial),
            },
    {
        match (username, apikey) {
            (Some(u), Some(k)) => Ok(LxpApi::new(u, k, self.mode)),
            (None, None) => {
                if self.has_account() {
                    Ok(self.api())
                } else {
                    Err(CredentialError::Missing)
                }
            },
            _ => Err(CredentialError::Partial),
        }
    }

    /// Creates and selects a profile; the legacy service URL is not stored,
    /// since requests always use the official host.
    pub fn profile_new(&mut self, profile_name: &str, user_name: &str, url: &str, api_key: &str) -> (r:
        Result<(), lxpconfig::Error>)
        requires
            old(self).wf(),
        ensures
            final(self).wf(),
            final(self).mode_view() == old(self).mode_view(),
            final(self).config_location() == old(self).config_location(),
            old(self).has_client() ==> final(self).has_client() && final(self).cached_client()
                == old(self).cached_client(),
            final(self).has_client() == old(self).has_client(),
            is_blank(profile_name@) ==> r == Err::<(), lxpconfig::Error>(lxpconfig::Error::EmptyName)
                && final(self).config_view() == old(self).config_view(),
            !is_blank(profile_name@) ==> r is Ok && exists|p: Profile|
                #![trigger old(self).config_view().saved(profile_name@, p)]
                final(self).config_view() == old(self).config_view().saved(profile_name@, p)
                    && p.user_name@ == user_name@ && p.api_key@ == api_key@,
    {
        let profile = Profile { user_name: String::from_str(user_name), api_key: String::from_str(api_key) };
        let ghost p = profile;
        let r = self.config.save(String::from_str(profile_name), profile);
        assert(!is_blank(profile_name@) ==> self.config_view() == old(self).config_view().saved(profile_name@, p));
        r
    }

    /// Deletes a profile.
    pub fn profile_delete(&mut self, profile_name: &str) -> (r: Result<(), lxpconfig::Error>)
        requires
            old(self).wf(),
        ensures
            final(self).wf(),
            final(self).mode_view() == old(self).mode_view(),
            final(self).config_location() == old(self).config_location(),
            old(self).has_client() ==> final(self).has_client() && final(self).cached_client()
                == old(self).cached_client(),
            final(self).has_client() == old(self).has_client(),
            old(self).config_view().profiles.contains_key(profile_name@) ==> r is Ok
                && final(self).config_view() == old(self).config_view().deleted(profile_name@),
            !old(self).config_view().profiles.contains_key(profile_name@) ==> r == Err::<
                (),
                lxpconfig::Error,
            >(lxpconfig::Error::MissingProfile) && final(self).config_view() == old(self).config_view(),
    {
        self.config.delete(profile_name)
    }

    /// Deletes every profile.
    pub fn profile_delete_all(&mut self)
        requires
            old(self).wf(),
        ensures
            final(self).wf(),
            final(self).mode_view() == old(self).mode_view(),
            final(self).config_location() == old(self).config_location(),
            old(self).has_client() ==> final(self).has_client() && final(self).cached_client()
                == old(self).cached_client(),
            final(self).has_client() == old(self).has_client(),
            final(self).config_view() == old(self).config_view().cleared(),
            final(self).config_view().active is None,
            forall|k: Seq<char>| !final(self).config_view().profiles.contains_key(k),
            final(self).profile_names().len() == 0,
    {
        self.config.clear();
    }

    /// Selects a profile.
    pub fn profile_switch(&mut self, profile_name: &str) -> (r: Result<(), lxpconfig::Error>)
        requires
            old(self).wf(),
        ensures
            final(self).wf(),
            final(self).mode_view() == old(self).mode_view(),
            final(self).config_location() == old(self).config_location(),
            old(self).has_client() ==> final(self).has_client() && final(self).cached_client()
                == old(self).cached_client(),
            final(self).has_client() == old(self).has_client(),
            old(self).config_view().profiles.contains_key(profile_name@) ==> r is Ok
                && final(self).config_view() == old(self).config_view().selected(profile_name@),
            !old(self).config_view().profiles.contains_key(profile_name@) ==> r == Err::<
                (),
                lxpconfig::Error,
            >(lxpconfig::Error::MissingProfile) && final(self).config_view() == old(self).config_view(),
    {
        self.config.select(String::from_str(profile_name))
    }

    /// Lists the stored profiles, one line each in increasing order of name,
    /// marking the selected one with `*`; no key is shown.
    pub fn profile_show(&self) -> (lines: Vec<String>)
        requires
            self.wf(),
        ensures
            lines@.len() == self.profile_names().len(),
            forall|i: int|
                0 <= i < lines@.len() ==> #[trigger] lines@[i]@ == lxpconfig::list_line(
                    self.config_view().active,
                    self.profile_names()[i],
                ),
            forall|i: int, j: int|
                0 <= i < j < self.profile_names().len() ==> lex_lt(
                    #[trigger] self.profile_names()[i],
                    #[trigger] self.profile_names()[j],
                ),
            forall|k: Seq<char>|
                self.config_view().profiles.contains_key(k) <==> #[trigger] self.profile_names().contains(k),
    {
        self.config.list()
    }

    /// The file name and contents of a downloaded invoice: the name joins the
    /// invoice date and the selected profile, the contents are the decoded
    /// document; `None` where the document is not valid Base64.
    pub fn invoice_pdf_file(&self, invoice_date: &str, encoded_pdf: &[u8]) -> (r: Option<
        (String, Vec<u8>),
    >)
        requires
            self.wf(),
            self.config_view().active is Some,
        ensures
            match r {
                Some((name, pdf)) => name@ == invoice_file_name(
                    invoice_date@,
                    self.config_view().active->0,
                ) && base64_decoded(encoded_pdf@) == Some(pdf@),
                None => base64_decoded(encoded_pdf@) is None,
            },
    {
        let profile_name = self.config.profile_active().unwrap();
        match base64_decode(encoded_pdf) {
            Some(pdf) => {
                let mut name = String::from_str(invoice_date);
                proof {
                    reveal_strlit("_");
                    reveal_strlit("-invoice.pdf");
                }
                name.append("_");
                name.append(profile_name.as_str());
                name.append("-invoice.pdf");
                assert(name@ =~= invoice_file_name(invoice_date@, self.config_view().active->0));
                Some((name, pdf))
            },
            None => None,
        }
    }
}

} // verus!
