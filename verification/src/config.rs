//! Validated runtime configuration, built from raw setting values.

use vstd::prelude::*;
use vstd::string::{StrSliceExecFns, StringExecFns};
use crate::num::{dec_value, is_dec_string, parse_u64, strip_plus};
use crate::text::{
    dedup_spec, dedup_strings, lemma_dedup_contains, lemma_dedup_unique,
    lemma_parse_list_idempotent, parse_list, parse_list_spec, views_of,
};

verus! {

/// Why configuration loading failed.
#[derive(Debug, PartialEq, Eq, Structural)]
pub enum ConfigError {
    /// The polling-interval setting is present but is not a positive
    /// integer that fits in 64 bits.
    InvalidInterval,
}

/// An immutable, validated snapshot of the runtime parameters.
pub struct Config {
    /// Optional bearer credential for outbound requests.
    pub github_token: Option<String>,
    /// Base URL of the remote API.
    pub api_url: String,
    /// Tracked repositories, as `owner/name` identifiers.
    pub repos: Vec<String>,
    /// Tracked organizations.
    pub orgs: Vec<String>,
    /// Tracked users.
    pub users: Vec<String>,
    /// `host:port` address the exposition endpoint listens on.
    pub listen_addr: String,
    /// Polling interval in seconds; always positive.
    pub scrape_interval_seconds: u64,
}

/// A well-formed entity list: every entry non-empty, no entry twice.
pub open spec fn entries_wf(s: Seq<Seq<char>>) -> bool {
    &&& forall|i: int| 0 <= i < s.len() ==> #[trigger] s[i].len() > 0
    &&& forall|i: int, j: int| 0 <= i < j < s.len() ==> s[i] != s[j]
}

/// The entries a raw comma-separated setting value yields: split,
/// trimmed, empties dropped, duplicates removed.
pub open spec fn list_view(raw: Option<String>) -> Seq<Seq<char>> {
    match raw {
        Some(s) => dedup_spec(parse_list_spec(s@)),
        None => Seq::<Seq<char>>::empty(),
    }
}

/// Whether a raw polling-interval setting is acceptable: absent, or
/// a positive decimal integer that fits in 64 bits, with one
/// optional leading plus sign.
pub open spec fn interval_ok(raw: Option<String>) -> bool {
    match raw {
        None => true,
        Some(s) => is_dec_string(strip_plus(s@)) && 1 <= dec_value(strip_plus(s@)) <= u64::MAX,
    }
}

/// The polling interval a raw setting yields.
pub open spec fn interval_view(raw: Option<String>) -> int {
    match raw {
        None => 300,
        Some(s) => dec_value(strip_plus(s@)) as int,
    }
}

/// The API base URL a raw setting yields.
pub open spec fn url_view(raw: Option<String>) -> Seq<char> {
    match raw {
        Some(u) => u@,
        None => "https://api.github.com"@,
    }
}

/// The listen address a raw setting yields.
pub open spec fn addr_view(raw: Option<String>) -> Seq<char> {
    match raw {
        Some(a) => a@,
        None => "0.0.0.0:9100"@,
    }
}

/// Entries parsed from any raw value are well-formed.
proof fn lemma_list_view_wf(raw: Option<String>)
    ensures
        entries_wf(list_view(raw)),
{
    match raw {
        None => {},
        Some(s) => {
            let p = parse_list_spec(s@);
            let d = dedup_spec(p);
            lemma_dedup_unique(p);
            assert forall|i: int| 0 <= i < d.len() implies #[trigger] d[i].len() > 0 by {
                assert(d.contains(d[i]));
                lemma_dedup_contains(p, d[i]);
                let j = choose|j: int| 0 <= j < p.len() && p[j] == d[i];
                lemma_parse_list_idempotent(s@, j);
            }
        },
    }
}

impl Config {
    /// The configuration invariant: a positive interval and
    /// well-formed entity lists.
    pub open spec fn wf(self) -> bool {
        &&& self.scrape_interval_seconds > 0
        &&& entries_wf(views_of(self.repos@))
        &&& entries_wf(views_of(self.orgs@))
        &&& entries_wf(views_of(self.users@))
    }

    /// Builds a validated configuration from raw setting values, one
    /// per setting, each absent when unset. Applies the documented
    /// defaults, parses and de-duplicates the entity lists, and
    /// rejects a present polling interval that is not a positive
    /// decimal integer.
    pub fn from_parts(
        github_token: Option<String>,
        api_url: Option<String>,
        repos: Option<String>,
        orgs: Option<String>,
        users: Option<String>,
        listen_addr: Option<String>,
        scrape_interval: Option<String>,
    ) -> (res: Result<Config, ConfigError>)
        ensures
            res is Ok <==> interval_ok(scrape_interval),
            res matches Ok(c) ==> {
                &&& c.github_token == github_token
                &&& c.api_url@ == url_view(api_url)
                &&& views_of(c.repos@) == list_view(repos)
                &&& views_of(c.orgs@) == list_view(orgs)
                &&& views_of(c.users@) == list_view(users)
                &&& c.listen_addr@ == addr_view(listen_addr)
                &&& c.scrape_interval_seconds == interval_view(scrape_interval)
                &&& c.wf()
            },
            res is Err ==> res == Result::<Config, ConfigError>::Err(ConfigError::InvalidInterval),
    {
        let scrape_interval_seconds: u64 = match &scrape_interval {
            None => 300,
            Some(s) => {
                let n = s.as_str().unicode_len();
                let digits = if n > 0 && s.as_str().get_char(0) == '+' {
                    s.as_str().substring_char(1, n)
                } else {
                    s.as_str()
                };
                proof {
                    assert(digits@ =~= strip_plus(s@));
                }
                match parse_u64(digits) {
                    Some(v) => {
                        if v == 0 {
                            return Err(ConfigError::InvalidInterval);
                        }
                        v
                    },
                    None => {
                        return Err(ConfigError::InvalidInterval);
                    },
                }
            },
        };
        let repos_list = Self::parse_entries(&repos);
        let orgs_list = Self::parse_entries(&orgs);
        let users_list = Self::parse_entries(&users);
        let api_url = match api_url {
            Some(u) => u,
            None => String::from_str("https://api.github.com"),
        };
        let listen_addr = match listen_addr {
            Some(a) => a,
            None => String::from_str("0.0.0.0:9100"),
        };
        proof {
            lemma_list_view_wf(repos);
            lemma_list_view_wf(orgs);
            lemma_list_view_wf(users);
        }
        Ok(Config {
            github_token,
            api_url,
            repos: repos_list,
            orgs: orgs_list,
            users: users_list,
            listen_addr,
            scrape_interval_seconds,
        })
    }

    /// Parses one raw list setting into its entries.
    fn parse_entries(raw: &Option<String>) -> (res: Vec<String>)
        ensures
            views_of(res@) == list_view(*raw),
    {
        match raw {
            Some(s) => {
                let pieces = parse_list(s.as_str());
                dedup_strings(&pieces)
            },
            None => {
                let res: Vec<String> = Vec::new();
                proof {
                    assert(views_of(res@) =~= Seq::<Seq<char>>::empty());
                }
                res
            },
        }
    }
}

} // verus!
