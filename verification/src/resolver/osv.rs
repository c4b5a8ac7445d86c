//! Queries to the OSV vulnerability database: the request for a commit's
//! record, and what its reply comes to.
use crate::error::PinnerError;
use crate::resolver::forges::{json_string, json_string_text};
use crate::resolver::json::{
    json_array_len, json_error, json_error_text, json_len_at, json_present_at, json_str_at, json_string_at,
    json_value_present,
};
use crate::text::{concat, decimal, owned, usize_text};
use vstd::prelude::*;

verus! {

/// Where OSV is queried when no other address is configured.
pub open spec fn default_osv_url() -> Seq<char> {
    "https://api.osv.dev/v1/query"@
}

/// The JSON body of a query for a commit.
pub open spec fn commit_query(commit: Seq<char>) -> Seq<char> {
    "{\"commit\":"@ + json_string_text(commit) + "}"@
}

/// The client of the OSV database.
pub struct OsvClient {
    /// No request leaves the machine.
    pub offline: bool,
}

impl OsvClient {
    pub fn new(offline: bool) -> (r: Self)
        ensures
            r.offline == offline,
    {
        OsvClient { offline }
    }

    /// The request for the record of a commit: the address (the configured
    /// one, else [`default_osv_url`]) and the body to `POST` there. Offline,
    /// nothing is sent and an error says so.
    pub fn query_commit(&self, commit: &str, configured_url: Option<String>) -> (r: Result<(String, String), PinnerError>)
        ensures
            self.offline ==> (r matches Err(PinnerError::Api(m)) && m@ == "Network request to OSV for commit "@ + commit@
                + " is disabled in offline mode"@),
            !self.offline ==> (r matches Ok((url, body)) && url@ == (match configured_url {
                Some(u) => u@,
                None => default_osv_url(),
            }) && body@ == commit_query(commit@)),
    {
        if self.offline {
            let a = concat("Network request to OSV for commit ", commit);
            return Err(PinnerError::Api(concat(a.as_str(), " is disabled in offline mode")));
        }
        let url = match configured_url {
            Some(u) => u,
            None => owned("https://api.osv.dev/v1/query"),
        };
        let c = json_string(commit);
        let a = concat("{\"commit\":", c.as_str());
        let body = concat(a.as_str(), "}");
        Ok((url, body))
    }
}

/// What came back from OSV: the request could not be sent (the error's
/// text), or a status (success or not, and its text) with the body as read
/// (or the error that stopped the reading).
pub enum OsvReply {
    Unsent(String),
    Answered { success: bool, status: String, body: Result<String, String> },
}

/// The record a reply gives: the body of a successful answer; an API error
/// for a request that was not sent, an unsuccessful status, or a body that
/// could not be read.
pub fn read_osv_reply(reply: OsvReply) -> (r: Result<Option<String>, PinnerError>)
    ensures
        match reply {
            OsvReply::Unsent(e) => r matches Err(PinnerError::Api(m)) && m@ == "Failed to send OSV request: "@ + e@,
            OsvReply::Answered { success, status, body } => if !success {
                r matches Err(PinnerError::Api(m)) && m@ == "OSV API returned error status: "@ + status@
            } else {
                match body {
                    Ok(b) => r matches Ok(Some(x)) && x@ == b@,
                    Err(e) => r matches Err(PinnerError::Api(m)) && m@ == "Failed to read OSV response body: "@ + e@,
                }
            },
        },
{
    match reply {
        OsvReply::Unsent(e) => Err(PinnerError::Api(concat("Failed to send OSV request: ", e.as_str()))),
        OsvReply::Answered { success, status, body } => {
            if !success {
                return Err(PinnerError::Api(concat("OSV API returned error status: ", status.as_str())));
            }
            match body {
                Ok(b) => Ok(Some(b)),
                Err(e) => Err(PinnerError::Api(concat("Failed to read OSV response body: ", e.as_str()))),
            }
        },
    }
}

// ---------------------------------------------------------------------------
// Reading OSV's answer
// ---------------------------------------------------------------------------

/// The pointer to field `name` of the `i`-th vulnerability.
pub open spec fn vuln_field(i: int, name: Seq<char>) -> Seq<char> {
    "/vulns/"@ + decimal(i as nat) + "/"@ + name
}

/// An optional text field is acceptable: absent, `null` or a string.
pub open spec fn optional_text_ok(body: Seq<char>, p: Seq<char>) -> bool {
    !json_value_present(body, p) || json_string_at(body, p) is Some
}

/// An optional text field's text; empty when absent or `null`.
pub open spec fn optional_text(body: Seq<char>, p: Seq<char>) -> Seq<char> {
    match json_string_at(body, p) {
        Some(t) => t,
        None => Seq::empty(),
    }
}

/// The first `n` vulnerability records (identifier, summary, details), or
/// `None` when one lacks a string identifier or has a summary or details
/// that is not a string.
pub open spec fn osv_records(body: Seq<char>, n: nat) -> Option<Seq<(Seq<char>, Seq<char>, Seq<char>)>>
    decreases n,
{
    if n == 0 {
        Some(Seq::empty())
    } else {
        match osv_records(body, (n - 1) as nat) {
            None => None,
            Some(prev) => {
                let i = n - 1;
                match json_string_at(body, vuln_field(i, "id"@)) {
                    None => None,
                    Some(id) => if optional_text_ok(body, vuln_field(i, "summary"@)) && optional_text_ok(
                        body,
                        vuln_field(i, "details"@),
                    ) {
                        Some(prev.push((id, optional_text(body, vuln_field(i, "summary"@)), optional_text(body, vuln_field(i, "details"@)))))
                    } else {
                        None
                    },
                }
            },
        }
    }
}

/// The vulnerabilities an OSV answer lists: none without a `vulns` field (or
/// with a `null` one), the records of the array otherwise; `None` for an
/// answer that is not JSON, whose `vulns` is not an array, or that holds a
/// malformed record.
pub open spec fn osv_vulnerabilities_of(body: Seq<char>) -> Option<Seq<(Seq<char>, Seq<char>, Seq<char>)>> {
    if json_error_text(body) is Some {
        None
    } else if !json_value_present(body, "/vulns"@) {
        Some(Seq::empty())
    } else {
        match json_array_len(body, "/vulns"@) {
            None => None,
            Some(n) => osv_records(body, n as nat),
        }
    }
}

proof fn lemma_records_failure_stays(body: Seq<char>, k: nat, m: nat)
    requires
        k <= m,
        osv_records(body, k) is None,
    ensures
        osv_records(body, m) is None,
    decreases m - k,
{
    if k < m {
        lemma_records_failure_stays(body, k, (m - 1) as nat);
    }
}

fn vuln_pointer(i: usize, name: &str) -> (r: String)
    ensures
        r@ == vuln_field(i as int, name@),
{
    let a = concat("/vulns/", usize_text(i).as_str());
    let b = concat(a.as_str(), "/");
    concat(b.as_str(), name)
}

/// Reads the vulnerability records of an OSV answer (see
/// [`osv_vulnerabilities_of`]).
pub fn osv_vulnerabilities(body: &str) -> (r: Option<Vec<(String, String, String)>>)
    ensures
        match r {
            Some(v) => osv_vulnerabilities_of(body@) == Some(v@.map_values(|x: (String, String, String)| (x.0@, x.1@, x.2@))),
            None => osv_vulnerabilities_of(body@) is None,
        },
{
    if json_error(body).is_some() {
        return None;
    }
    let mut out: Vec<(String, String, String)> = Vec::new();
    assert(out@.map_values(|x: (String, String, String)| (x.0@, x.1@, x.2@)) =~= Seq::<(Seq<char>, Seq<char>, Seq<char>)>::empty());
    if !json_present_at(body, "/vulns") {
        proof {
            reveal_strlit("/vulns");
        }
        return Some(out);
    }
    let n = match json_len_at(body, "/vulns") {
        Some(n) => n,
        None => return None,
    };
    let mut i: usize = 0;
    while i < n
        invariant
            0 <= i <= n,
            json_error_text(body@) is None,
            json_value_present(body@, "/vulns"@),
            json_array_len(body@, "/vulns"@) == Some(n),
            out@.len() == i,
            osv_records(body@, i as nat) == Some(out@.map_values(|x: (String, String, String)| (x.0@, x.1@, x.2@))),
        decreases n - i,
    {
        let ghost prev = out@.map_values(|x: (String, String, String)| (x.0@, x.1@, x.2@));
        let pid = vuln_pointer(i, "id");
        let ps = vuln_pointer(i, "summary");
        let pd = vuln_pointer(i, "details");
        proof {
            reveal_strlit("id");
            reveal_strlit("summary");
            reveal_strlit("details");
        }
        let id = match json_str_at(body, pid.as_str()) {
            Some(t) => t,
            None => {
                proof {
                    lemma_records_failure_stays(body@, (i + 1) as nat, n as nat);
                }
                return None;
            },
        };
        let summary = json_str_at(body, ps.as_str());
        let details = json_str_at(body, pd.as_str());
        let s_ok = summary.is_some() || !json_present_at(body, ps.as_str());
        let d_ok = details.is_some() || !json_present_at(body, pd.as_str());
        if !(s_ok && d_ok) {
            proof {
                lemma_records_failure_stays(body@, (i + 1) as nat, n as nat);
            }
            return None;
        }
        let st = match summary {
            Some(t) => t,
            None => String::new(),
        };
        let dt = match details {
            Some(t) => t,
            None => String::new(),
        };
        out.push((id, st, dt));
        assert(out@.map_values(|x: (String, String, String)| (x.0@, x.1@, x.2@)) =~= prev.push(
            (out@[i as int].0@, out@[i as int].1@, out@[i as int].2@),
        ));
        i = i + 1;
    }
    Some(out)
}

/// Whether an OSV answer lists any vulnerability, whatever each record
/// holds: no for an absent or `null` `vulns`; `None` for an answer that is
/// not JSON or whose `vulns` is not an array.
pub open spec fn osv_lists_any_of(body: Seq<char>) -> Option<bool> {
    if json_error_text(body) is Some {
        None
    } else if !json_value_present(body, "/vulns"@) {
        Some(false)
    } else {
        match json_array_len(body, "/vulns"@) {
            None => None,
            Some(n) => Some(n > 0),
        }
    }
}

/// Whether an OSV answer lists any vulnerability (see [`osv_lists_any_of`]).
pub fn osv_lists_any(body: &str) -> (r: Option<bool>)
    ensures
        r == osv_lists_any_of(body@),
{
    if json_error(body).is_some() {
        return None;
    }
    if !json_present_at(body, "/vulns") {
        proof {
            reveal_strlit("/vulns");
        }
        return Some(false);
    }
    match json_len_at(body, "/vulns") {
        Some(n) => Some(n > 0),
        None => None,
    }
}

} // verus!
