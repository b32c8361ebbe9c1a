//! The presence record a server announces to one server-list registry,
//! and the form fields built from it.

use crate::decimal::{bool_string, bool_text, decimal, decimal_string};
use vstd::prelude::*;
use vstd::string::*;

verus! {

/// Status a registry answers with when it has taken a beat.
pub const STATUS_OK: u16 = 200;

/// What a [`Heartbeat`] holds, as mathematical values.
pub struct Record {
    pub url: Seq<char>,
    pub ip: Seq<char>,
    pub port: u16,
    pub name: Seq<char>,
    pub public: Seq<char>,
    pub max_users: u16,
    pub online: Seq<char>,
    pub protocol: u16,
    pub salt: Seq<char>,
    pub users: u16,
    pub whitelisted: bool,
    pub whitelisted_users: Seq<Seq<char>>,
    pub whitelisted_ips: Seq<Seq<char>>,
    pub banned_users: Seq<Seq<char>>,
    pub banned_ips: Seq<Seq<char>>,
    /// The request as built, if nothing has been updated since; empty
    /// before the first build and after every update.
    pub request: Seq<(Seq<char>, Seq<char>)>,
}

impl Record {
    /// The form fields of a request, in the order registries expect:
    /// `ip, port, users, max, name, public, version, salt`.
    pub open spec fn fields(self) -> Seq<(Seq<char>, Seq<char>)> {
        seq![
            ("ip"@, self.ip),
            ("port"@, decimal(self.port as nat)),
            ("users"@, decimal(self.users as nat)),
            ("max"@, decimal(self.max_users as nat)),
            ("name"@, self.name),
            ("public"@, self.public),
            ("version"@, decimal(self.protocol as nat)),
            ("salt"@, self.salt),
        ]
    }

    /// The record after its request has been built and cached.
    pub open spec fn built(self) -> Record {
        Record { request: self.fields(), ..self }
    }

    /// Whether the cached request can be trusted: either none is cached,
    /// or the cached one is what the record would build now.
    pub open spec fn is_current(self) -> bool {
        self.request.len() == 0 || self.request == self.fields()
    }

    /// The record after an update: the cached request is dropped with
    /// it, since it was built from what the record held before.
    pub open spec fn updated(self) -> Record {
        Record { request: Seq::empty(), ..self }
    }
}

/// The texts held by a list of strings.
pub open spec fn texts(list: Seq<String>) -> Seq<Seq<char>> {
    Seq::new(list.len(), |i: int| list[i]@)
}

/// The key and value texts held by a list of form fields.
pub open spec fn pairs(list: Seq<(String, String)>) -> Seq<(Seq<char>, Seq<char>)> {
    Seq::new(list.len(), |i: int| (list[i].0@, list[i].1@))
}

/// What came of posting a request to a registry.
#[derive(Clone, Copy, Debug, PartialEq, Eq)]
pub enum Reply {
    /// The registry answered with this status.
    Status(u16),
    /// No answer: the request could not be sent, or the transport gave
    /// up waiting.
    Failed,
}

/// Why a beat did not reach its registry.
#[derive(Clone, Copy, Debug, PartialEq, Eq)]
pub enum BeatError {
    /// The address of the registry is no URL: nothing was sent.
    InvalidUrl,
    /// The transport failed.
    Transport,
    /// The registry answered with a status other than OK.
    Rejected(u16),
}

/// The verdict on a beat, given what came of its request: success is
/// the status OK and nothing else.
pub open spec fn verdict(reply: Reply) -> Result<(), BeatError> {
    match reply {
        Reply::Status(code) => if code == STATUS_OK {
            Ok(())
        } else {
            Err(BeatError::Rejected(code))
        },
        Reply::Failed => Err(BeatError::Transport),
    }
}

/// A request ready to go out: the form fields to post, and where to.
#[derive(Debug, PartialEq, Eq)]
pub struct Post {
    pub url: String,
    pub form: Vec<(String, String)>,
}

/// Whether `reqwest::Url::parse` takes `url` for an absolute URL.
pub uninterp spec fn url_parses(url: Seq<char>) -> bool;

/// Asks `reqwest::Url::parse` whether `url` is an absolute URL. The
/// answer depends on the text alone; what the parser accepts is not
/// restated here.
#[verifier::external_body]
fn parses_as_url(url: &str) -> (ok: bool)
    ensures
        ok == url_parses(url@),
{
    reqwest::Url::parse(url).is_ok()
}

/// Heartbeat record for one registry.
pub struct Heartbeat {
    url: String,
    ip: String,
    port: u16,
    name: String,
    public: String,
    max_users: u16,
    online: String,
    protocol: u16,
    salt: String,
    users: u16,
    whitelisted: bool,
    whitelisted_users: Vec<String>,
    whitelisted_ips: Vec<String>,
    banned_users: Vec<String>,
    banned_ips: Vec<String>,
    request: Vec<(String, String)>,
}

impl View for Heartbeat {
    type V = Record;

    closed spec fn view(&self) -> Record {
        Record {
            url: self.url@,
            ip: self.ip@,
            port: self.port,
            name: self.name@,
            public: self.public@,
            max_users: self.max_users,
            online: self.online@,
            protocol: self.protocol,
            salt: self.salt@,
            users: self.users,
            whitelisted: self.whitelisted,
            whitelisted_users: texts(self.whitelisted_users@),
            whitelisted_ips: texts(self.whitelisted_ips@),
            banned_users: texts(self.banned_users@),
            banned_ips: texts(self.banned_ips@),
            request: pairs(self.request@),
        }
    }
}

fn copy_pairs(list: &Vec<(String, String)>) -> (out: Vec<(String, String)>)
    ensures
        pairs(out@) == pairs(list@),
{
    let mut out: Vec<(String, String)> = Vec::new();
    let mut i: usize = 0;
    while i < list.len()
        invariant
            i <= list.len(),
            out.len() == i,
            forall|j: int| 0 <= j < i ==> out[j].0@ == list[j].0@ && out[j].1@ == list[j].1@,
        decreases list.len() - i,
    {
        let key = list[i].0.clone();
        let value = list[i].1.clone();
        out.push((key, value));
        i += 1;
    }
    assert(pairs(out@) =~= pairs(list@));
    out
}

impl Heartbeat {
    #[verifier::type_invariant]
    spec fn inv(self) -> bool {
        self@.is_current()
    }

    /// Create a heartbeat record: nobody online yet, empty lists, no
    /// request built.
    pub fn new(
        url: &str,
        ip: &str,
        port: u16,
        name: &str,
        public: bool,
        max_players: u16,
        online: bool,
        salt: &str,
        protocol: u16,
        whitelisted: bool,
    ) -> (hb: Self)
        ensures
            hb@ == (Record {
                url: url@,
                ip: ip@,
                port,
                name: name@,
                public: bool_text(public),
                max_users: max_players,
                online: bool_text(online),
                protocol,
                salt: salt@,
                users: 0,
                whitelisted,
                whitelisted_users: Seq::empty(),
                whitelisted_ips: Seq::empty(),
                banned_users: Seq::empty(),
                banned_ips: Seq::empty(),
                request: Seq::empty(),
            }),
    {
        let hb = Self {
            url: String::from_str(url),
            ip: String::from_str(ip),
            port,
            name: String::from_str(name),
            public: bool_string(public),
            max_users: max_players,
            online: bool_string(online),
            protocol,
            salt: String::from_str(salt),
            users: 0,
            whitelisted,
            whitelisted_users: Vec::new(),
            whitelisted_ips: Vec::new(),
            banned_users: Vec::new(),
            banned_ips: Vec::new(),
            request: Vec::new(),
        };
        assert(hb@.whitelisted_users =~= Seq::empty());
        assert(hb@.whitelisted_ips =~= Seq::empty());
        assert(hb@.banned_users =~= Seq::empty());
        assert(hb@.banned_ips =~= Seq::empty());
        assert(hb@.request =~= Seq::empty());
        hb
    }

    /// Drops the cached request. Every update starts with this: no
    /// request outlives the record it was built from.
    fn forget_request(&mut self)
        ensures
            final(self)@ == old(self)@.updated(),
    {
        self.request = Vec::new();
        assert(self@.request =~= Seq::empty());
    }

    /// Update the number of users currently connected to the server.
    /// The cached request is dropped.
    pub fn update_users(&mut self, user_count: u16)
        ensures
            final(self)@ == (Record { users: user_count, ..old(self)@ }).updated(),
            final(self)@.is_current(),
    {
        self.forget_request();
        self.users = user_count;
    }

    /// Replace the ban lists. The cached request is dropped.
    pub fn update_bans(&mut self, banned_users: Vec<String>, banned_ips: Vec<String>)
        ensures
            final(self)@ == (Record {
                banned_users: texts(banned_users@),
                banned_ips: texts(banned_ips@),
                ..old(self)@
            }).updated(),
            final(self)@.is_current(),
    {
        self.forget_request();
        self.banned_users = banned_users;
        self.banned_ips = banned_ips;
    }

    /// Replace the whitelists. The cached request is dropped.
    pub fn update_whitelist(&mut self, wl_users: Vec<String>, wl_ips: Vec<String>)
        ensures
            final(self)@ == (Record {
                whitelisted_users: texts(wl_users@),
                whitelisted_ips: texts(wl_ips@),
                ..old(self)@
            }).updated(),
            final(self)@.is_current(),
    {
        self.forget_request();
        self.whitelisted_users = wl_users;
        self.whitelisted_ips = wl_ips;
    }

    /// Builds the request fields from the record, caches them for the
    /// next beat and hands a copy back.
    pub fn build_request(&mut self) -> (query: Vec<(String, String)>)
        ensures
            pairs(query@) == old(self)@.fields(),
            final(self)@ == old(self)@.built(),
            final(self)@.is_current(),
    {
        let mut query: Vec<(String, String)> = Vec::new();
        query.push((String::from_str("ip"), self.ip.clone()));
        query.push((String::from_str("port"), decimal_string(self.port)));
        query.push((String::from_str("users"), decimal_string(self.users)));
        query.push((String::from_str("max"), decimal_string(self.max_users)));
        query.push((String::from_str("name"), self.name.clone()));
        query.push((String::from_str("public"), self.public.clone()));
        query.push((String::from_str("version"), decimal_string(self.protocol)));
        query.push((String::from_str("salt"), self.salt.clone()));
        assert(pairs(query@) =~= self@.fields());
        self.request = copy_pairs(&query);
        query
    }

    /// Number of users last reported to the record.
    pub fn get_user_count(&self) -> (count: u16)
        ensures
            count == self@.users,
    {
        self.users
    }

    /// The whitelisted user names and the whitelisted addresses.
    pub fn get_whitelist(&self) -> (lists: (&Vec<String>, &Vec<String>))
        ensures
            texts(lists.0@) == self@.whitelisted_users,
            texts(lists.1@) == self@.whitelisted_ips,
    {
        (&self.whitelisted_users, &self.whitelisted_ips)
    }

    /// The address of the registry.
    pub fn get_url(&self) -> (url: &String)
        ensures
            url@ == self@.url,
    {
        &self.url
    }

    /// Whether the address of the registry is a URL.
    pub fn has_url(&self) -> (ok: bool)
        ensures
            ok == url_parses(self@.url),
    {
        parses_as_url(self.url.as_str())
    }

    /// The request to post, given whether the address of the registry
    /// is a URL: the cached fields, addressed to the registry.
    pub fn request_to(&self, url_ok: bool) -> (r: Result<Post, BeatError>)
        ensures
            self@.is_current(),
            match r {
                Ok(post) => url_ok && post.url@ == self@.url && pairs(post.form@) == self@.request,
                Err(e) => !url_ok && e == BeatError::InvalidUrl,
            },
    {
        proof {
            use_type_invariant(self);
        }
        if url_ok {
            Ok(Post { url: self.url.clone(), form: copy_pairs(&self.request) })
        } else {
            Err(BeatError::InvalidUrl)
        }
    }

    /// The request that a beat posts: the cached fields, addressed to
    /// the registry. Fails, and nothing is to be sent, if the address of
    /// the registry is no URL.
    pub fn outgoing(&self) -> (r: Result<Post, BeatError>)
        ensures
            self@.is_current(),
            match r {
                Ok(post) => {
                    &&& url_parses(self@.url)
                    &&& post.url@ == self@.url
                    &&& pairs(post.form@) == self@.request
                },
                Err(e) => !url_parses(self@.url) && e == BeatError::InvalidUrl,
            },
    {
        let url_ok = self.has_url();
        self.request_to(url_ok)
    }

    /// Judges a beat by what came of its request. A registry that
    /// answers anything but OK, or does not answer, makes the beat fail;
    /// the failure is handed back, never raised.
    pub fn beat(&self, reply: Reply) -> (r: Result<(), BeatError>)
        ensures
            r == verdict(reply),
    {
        match reply {
            Reply::Status(code) => {
                if code == STATUS_OK {
                    Ok(())
                } else {
                    Err(BeatError::Rejected(code))
                }
            },
            Reply::Failed => Err(BeatError::Transport),
        }
    }

    /// A copy of the cached request: the fields as built, if nothing
    /// has been updated since; empty before the first build and after
    /// every update. It is never a request that the record has
    /// outgrown.
    pub fn get_request(&self) -> (query: Vec<(String, String)>)
        ensures
            pairs(query@) == self@.request,
            self@.is_current(),
    {
        proof {
            use_type_invariant(self);
        }
        copy_pairs(&self.request)
    }
}

/// No request outlives the record it was built from: after an update,
/// whatever it changes, none is cached; after a build, the cached one is
/// what the record holds. Either way the cache is current.
pub proof fn lemma_request_is_never_stale(r: Record)
    ensures
        r.updated().request.len() == 0,
        r.updated().is_current(),
        r.updated().built() == r.built(),
        r.built().is_current(),
        r.built().request == r.fields(),
{
}

/// Building reads the record and nothing else, and does not depend on
/// what an earlier build cached: a second build without an update in
/// between yields the same fields and leaves the record as the first
/// build left it.
pub proof fn lemma_build_is_repeatable(r: Record)
    ensures
        r.built().fields() == r.fields(),
        r.built().built() == r.built(),
        r.fields().len() == 8,
{
}

} // verus!
