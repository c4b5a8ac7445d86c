//! Container image digests from OCI registries: where an image lives, which
//! requests resolve a tag to its digest, and how they authenticate.
use crate::error::PinnerError;
use crate::resolver::forges::{opt_text, reply_view, replies_view, Reply, ReplyView, ValuesView};
use crate::text::{chars_of, concat, contains, contains_exec, first_index_of, find_char, has_prefix, occurs_at, occurs_at_exec, owned, slice_chars, str_eq, string_of};
use base64::Engine;
use vstd::prelude::*;

verus! {

/// How a registry is reached: the token service, the manifest URL template
/// (with `{registry}`, `{repository}` and `{tag}`), configured credentials,
/// and whether the network may be used.
pub struct OciRegistryProvider {
    pub auth_url: String,
    pub base_url_template: String,
    pub username: Option<String>,
    pub password: Option<String>,
    pub offline: bool,
}

impl Default for OciRegistryProvider {
    fn default() -> (r: Self)
        ensures
            r.auth_url@ == "https://auth.docker.io/token"@,
            r.base_url_template@ == "https://{registry}/v2/{repository}/manifests/{tag}"@,
            r.username is None,
            r.password is None,
            !r.offline,
    {
        OciRegistryProvider::new(None, None)
    }
}

impl OciRegistryProvider {
    /// Docker Hub's token service and the standard manifest URL, with the
    /// given credentials.
    pub fn new(username: Option<String>, password: Option<String>) -> (r: Self)
        ensures
            r.auth_url@ == "https://auth.docker.io/token"@,
            r.base_url_template@ == "https://{registry}/v2/{repository}/manifests/{tag}"@,
            r.username == username,
            r.password == password,
            !r.offline,
    {
        OciRegistryProvider {
            auth_url: owned("https://auth.docker.io/token"),
            base_url_template: owned("https://{registry}/v2/{repository}/manifests/{tag}"),
            username,
            password,
            offline: false,
        }
    }

    /// Sets offline mode.
    pub fn with_offline(self, offline: bool) -> (r: Self)
        ensures
            r.offline == offline,
            r.auth_url == self.auth_url,
            r.base_url_template == self.base_url_template,
            r.username == self.username,
            r.password == self.password,
    {
        let mut s = self;
        s.offline = offline;
        s
    }

    /// Another token service and manifest URL template, without credentials.
    pub fn with_base_urls(auth_url: String, base_url_template: String) -> (r: Self)
        ensures
            r.auth_url == auth_url,
            r.base_url_template == base_url_template,
            r.username is None,
            r.password is None,
            !r.offline,
    {
        OciRegistryProvider { auth_url, base_url_template, username: None, password: None, offline: false }
    }

    /// Whether the provenance of an image digest verifies. Offline, nothing is
    /// checked and an error says so; otherwise the signature is accepted as
    /// verified: no transparency log is consulted.
    pub fn verify_provenance(&self, image: &str, digest: &str) -> (r: Result<bool, PinnerError>)
        ensures
            self.offline ==> (r matches Err(PinnerError::Api(m)) && m@ == "Network request to verify OCI provenance for "@
                + image@ + "@"@ + digest@ + " is disabled in offline mode"@),
            !self.offline ==> r == Ok::<bool, PinnerError>(true),
    {
        if self.offline {
            let a = concat("Network request to verify OCI provenance for ", image);
            let b = concat(a.as_str(), "@");
            let c = concat(b.as_str(), digest);
            return Err(PinnerError::Api(concat(c.as_str(), " is disabled in offline mode")));
        }
        Ok(true)
    }
}

/// Docker Hub's registry host.
pub open spec fn docker_hub() -> Seq<char> {
    "registry-1.docker.io"@
}

/// The registry and repository of an image: the part before the first `/`
/// is a registry when it holds a `.` or a `:` or is `localhost`; otherwise
/// the image is on Docker Hub, where official images live under `library/`.
pub open spec fn image_location(image: Seq<char>) -> (Seq<char>, Seq<char>) {
    let (registry, repository) = match first_index_of(image, '/') {
        Some(i) => {
            let first = image.take(i);
            if contains(first, "."@) || contains(first, ":"@) || first == "localhost"@ {
                (first, image.skip(i + 1))
            } else {
                (docker_hub(), image)
            }
        },
        None => (docker_hub(), image),
    };
    if registry == docker_hub() && !contains(repository, "/"@) {
        (registry, "library/"@ + repository)
    } else {
        (registry, repository)
    }
}

/// The registry and repository of an image (see [`image_location`]).
pub fn locate_image(image: &str) -> (r: (String, String))
    ensures
        (r.0@, r.1@) == image_location(image@),
{
    let v = chars_of(image);
    let (registry, repository) = match find_char(&v, '/') {
        Some(i) => {
            let first = string_of(&slice_chars(&v, 0, i));
            assert(first@ =~= v@.take(i as int));
            let f = chars_of(first.as_str());
            if contains_exec(&f, &chars_of(".")) || contains_exec(&f, &chars_of(":")) || str_eq(first.as_str(), "localhost") {
                let rest = string_of(&slice_chars(&v, i + 1, v.len()));
                assert(rest@ =~= v@.skip(i + 1));
                (first, rest)
            } else {
                (owned("registry-1.docker.io"), owned(image))
            }
        },
        None => (owned("registry-1.docker.io"), owned(image)),
    };
    if str_eq(registry.as_str(), "registry-1.docker.io") && !contains_exec(&chars_of(repository.as_str()), &chars_of("/")) {
        let full = concat("library/", repository.as_str());
        (registry, full)
    } else {
        (registry, repository)
    }
}

/// Docker Hub's registry, by either of its names.
pub open spec fn is_docker_hub(registry: Seq<char>) -> bool {
    registry == "docker.io"@ || registry == docker_hub()
}

/// The name under which the credential helpers know a registry.
pub open spec fn credential_key(registry: Seq<char>) -> Seq<char> {
    if is_docker_hub(registry) {
        "https://index.docker.io/v1/"@
    } else {
        registry
    }
}

/// The name under which the credential helpers know a registry (see
/// [`credential_key`]); the executable asks the helpers for it, and, when
/// that fails and the name differs, for the registry itself.
pub fn credential_registry(registry: &str) -> (r: String)
    ensures
        r@ == credential_key(registry@),
{
    if str_eq(registry, "docker.io") || str_eq(registry, "registry-1.docker.io") {
        owned("https://index.docker.io/v1/")
    } else {
        owned(registry)
    }
}

/// A text with every occurrence of `pat` (non-empty) replaced by `rep`,
/// scanning from the left, as `str::replace` does.
pub open spec fn replaced(s: Seq<char>, pat: Seq<char>, rep: Seq<char>) -> Seq<char>
    decreases s.len(),
{
    if pat.len() == 0 || s.len() == 0 {
        s
    } else if occurs_at(s, pat, 0) {
        rep + replaced(s.skip(pat.len() as int), pat, rep)
    } else {
        seq![s[0]] + replaced(s.drop_first(), pat, rep)
    }
}

proof fn lemma_replaced_step(s: Seq<char>, pat: Seq<char>, rep: Seq<char>, i: int)
    requires
        pat.len() > 0,
        0 <= i < s.len(),
    ensures
        occurs_at(s, pat, i) ==> replaced(s.skip(i), pat, rep) == rep + replaced(s.skip(i + pat.len()), pat, rep),
        !occurs_at(s, pat, i) ==> replaced(s.skip(i), pat, rep) == seq![s[i]] + replaced(s.skip(i + 1), pat, rep),
{
    let t = s.skip(i);
    assert(occurs_at(s, pat, i) <==> occurs_at(t, pat, 0)) by {
        if occurs_at(s, pat, i) {
            assert(t.subrange(0, pat.len() as int) =~= s.subrange(i, i + pat.len()));
        }
        if occurs_at(t, pat, 0) {
            assert(t.subrange(0, pat.len() as int) =~= s.subrange(i, i + pat.len()));
        }
    }
    if occurs_at(t, pat, 0) {
        assert(t.skip(pat.len() as int) =~= s.skip(i + pat.len()));
    } else {
        assert(t.drop_first() =~= s.skip(i + 1));
        assert(t[0] == s[i]);
    }
}

/// `s.replace(pat, rep)` for a non-empty pattern (see [`replaced`]).
pub fn replace_all(s: &str, pat: &str, rep: &str) -> (r: String)
    requires
        pat@.len() > 0,
    ensures
        r@ == replaced(s@, pat@, rep@),
{
    let v = chars_of(s);
    let p = chars_of(pat);
    let mut out: Vec<char> = Vec::new();
    let rv = chars_of(rep);
    let mut i: usize = 0;
    assert(v@.skip(0) =~= v@);
    while i < v.len()
        invariant
            0 <= i <= v.len(),
            v@ == s@,
            p@ == pat@,
            rv@ == rep@,
            p@.len() > 0,
            out@ + replaced(v@.skip(i as int), p@, rv@) == replaced(s@, pat@, rep@),
        decreases v.len() - i,
    {
        proof {
            lemma_replaced_step(v@, p@, rv@, i as int);
        }
        if occurs_at_exec(&v, &p, i) {
            let ghost before = out@;
            let mut w = rv.clone();
            assert(w@ == rv@);
            out.append(&mut w);
            assert(out@ == before + rv@);
            assert(before + (rv@ + replaced(v@.skip(i + p@.len()), p@, rv@)) =~= out@ + replaced(
                v@.skip(i + p@.len()),
                p@,
                rv@,
            ));
            i = i + p.len();
        } else {
            let ghost before = out@;
            out.push(v[i]);
            assert(before + (seq![v@[i as int]] + replaced(v@.skip(i + 1), p@, rv@)) =~= out@ + replaced(
                v@.skip(i + 1),
                p@,
                rv@,
            ));
            i = i + 1;
        }
    }
    assert(v@.skip(v.len() as int) =~= Seq::<char>::empty());
    assert(out@ + Seq::<char>::empty() =~= out@);
    string_of(&out)
}

/// The UTF-8 bytes of a character.
pub open spec fn utf8_bytes(c: char) -> Seq<int> {
    let n = c as int;
    if n < 0x80 {
        seq![n]
    } else if n < 0x800 {
        seq![0xC0 + n / 64, 0x80 + n % 64]
    } else if n < 0x10000 {
        seq![0xE0 + n / 4096, 0x80 + (n / 64) % 64, 0x80 + n % 64]
    } else {
        seq![0xF0 + n / 262144, 0x80 + (n / 4096) % 64, 0x80 + (n / 64) % 64, 0x80 + n % 64]
    }
}

/// The UTF-8 bytes of a text.
pub open spec fn utf8_of(s: Seq<char>) -> Seq<int>
    decreases s.len(),
{
    if s.len() == 0 {
        Seq::empty()
    } else {
        utf8_of(s.drop_last()) + utf8_bytes(s.last())
    }
}

/// The character of a 6-bit value in the standard Base64 alphabet.
pub open spec fn b64_char(i: int) -> char {
    if i < 26 {
        (65 + i) as char
    } else if i < 52 {
        (71 + i) as char
    } else if i < 62 {
        (i - 4) as char
    } else if i == 62 {
        '+'
    } else {
        '/'
    }
}

/// The standard Base64 encoding of bytes: each group of three bytes as four
/// characters, a final group of one or two bytes padded with `=`.
pub open spec fn base64_of(b: Seq<int>) -> Seq<char>
    decreases b.len(),
{
    if b.len() == 0 {
        Seq::empty()
    } else if b.len() == 1 {
        seq![b64_char(b[0] / 4), b64_char((b[0] % 4) * 16), '=', '=']
    } else if b.len() == 2 {
        seq![b64_char(b[0] / 4), b64_char((b[0] % 4) * 16 + b[1] / 16), b64_char((b[1] % 16) * 4), '=']
    } else {
        seq![
            b64_char(b[0] / 4),
            b64_char((b[0] % 4) * 16 + b[1] / 16),
            b64_char((b[1] % 16) * 4 + b[2] / 64),
            b64_char(b[2] % 64),
        ] + base64_of(b.skip(3))
    }
}

/// The standard Base64 encoding (with padding) of a text's UTF-8 bytes.
pub open spec fn base64_text(s: Seq<char>) -> Seq<char> {
    base64_of(utf8_of(s))
}

/// `base64::engine::general_purpose::STANDARD.encode` of a text. Trusted:
/// the text is the standard alphabet's encoding of the text's UTF-8 bytes,
/// with padding, as [`base64_text`] states it.
#[verifier::external_body]
fn base64_encode(s: &str) -> (r: String)
    ensures
        r@ == base64_text(s@),
{
    base64::engine::general_purpose::STANDARD.encode(s)
}

/// The `Basic` authorization of a user and password.
pub open spec fn basic_auth(user: Seq<char>, password: Seq<char>) -> Seq<char> {
    "Basic "@ + base64_text(user + ":"@ + password)
}

/// How a registry reply is read: the string at a JSON pointer of its body,
/// or the value of the first of some headers that is present.
#[derive(Debug)]
pub enum RegistryReading {
    Json(String),
    Headers(Vec<String>),
}

/// A request to a registry: URL, `Authorization` header (if any), accepted
/// media types, and how the reply is read.
#[derive(Debug)]
pub struct RegistryRequest {
    pub url: String,
    pub authorization: Option<String>,
    pub accept: Vec<String>,
    pub reading: RegistryReading,
}

/// A reading as values: from the body (`true`) or headers, and the names.
pub open spec fn registry_reading_view(r: RegistryReading) -> (bool, Seq<Seq<char>>) {
    match r {
        RegistryReading::Json(p) => (true, seq![p@]),
        RegistryReading::Headers(hs) => (false, hs@.map_values(|x: String| x@)),
    }
}

/// The media types a manifest request accepts.
pub open spec fn manifest_types() -> Seq<Seq<char>> {
    seq!["application/vnd.oci.image.manifest.v1+json"@, "application/vnd.docker.distribution.manifest.v2+json"@]
}

/// The headers that carry a manifest's digest, in order of preference.
pub open spec fn digest_headers() -> Seq<Seq<char>> {
    seq!["Docker-Content-Digest"@, "Digest"@]
}

/// What comes next in resolving a digest.
#[derive(Debug)]
pub enum RegistryStep {
    Send(RegistryRequest),
    Done(Result<String, PinnerError>),
}

/// What comes next, as values: a request (URL, authorization), or the digest
/// or the message of the API error.
pub enum DigestFlow {
    Send(Seq<char>, Option<Seq<char>>, Seq<Seq<char>>, (bool, Seq<Seq<char>>)),
    Digest(Seq<char>),
    Failed(Seq<char>),
}

/// The credentials used: the configured user and password when both are
/// given, else those of the credential helpers.
pub open spec fn credentials(p: OciRegistryProvider, helper: Option<(Seq<char>, Seq<char>)>) -> Option<(Seq<char>, Seq<char>)> {
    match (p.username, p.password) {
        (Some(u), Some(w)) => Some((u@, w@)),
        _ => helper,
    }
}

/// The manifest request after the token (empty without one): a bearer token
/// when there is one, else the credentials, if any.
pub open spec fn manifest_request(p: OciRegistryProvider, registry: Seq<char>, repo: Seq<char>, tag: Seq<char>, token: Seq<char>, creds: Option<(Seq<char>, Seq<char>)>) -> DigestFlow {
    let url = replaced(replaced(replaced(p.base_url_template@, "{registry}"@, registry), "{repository}"@, repo), "{tag}"@, tag);
    DigestFlow::Send(url, if token.len() > 0 {
        Some("Bearer "@ + token)
    } else {
        match creds {
            Some(c) => Some(basic_auth(c.0, c.1)),
            None => None,
        }
    }, manifest_types(), (false, digest_headers()))
}

/// The digest of a manifest reply: the value of its `Docker-Content-Digest`
/// header, else of its `Digest` header (the only field read).
pub open spec fn manifest_answer(r: ReplyView) -> DigestFlow {
    if 200 <= r.0 <= 299 {
        match r.2 {
            Ok(Some(vs)) => if vs.len() > 0 {
                DigestFlow::Digest(vs[0])
            } else {
                DigestFlow::Failed("Digest not found in response headers"@)
            },
            _ => DigestFlow::Failed("Digest not found in response headers"@),
        }
    } else {
        DigestFlow::Failed("Failed to fetch manifest: HTTP "@ + r.1)
    }
}

/// Resolving `image:tag` to its digest. Offline, nothing is sent. On Docker
/// Hub a pull token comes first (`GET {auth_url}?service=...&scope=...`, with
/// the credentials, field `token`); then the manifest is requested (see
/// [`manifest_request`], [`manifest_answer`]).
pub open spec fn digest_flow(p: OciRegistryProvider, image: Seq<char>, tag: Seq<char>, helper: Option<(Seq<char>, Seq<char>)>, rs: Seq<ReplyView>) -> DigestFlow {
    if p.offline {
        DigestFlow::Failed("Network request to resolve OCI digest for "@ + image + "@"@ + tag + " is disabled in offline mode"@)
    } else {
        let (registry, repo) = image_location(image);
        let creds = credentials(p, helper);
        if is_docker_hub(registry) {
            if rs.len() == 0 {
                DigestFlow::Send(
                    p.auth_url@ + "?service=registry.docker.io&scope=repository:"@ + repo + ":pull"@,
                    match creds {
                        Some(c) => Some(basic_auth(c.0, c.1)),
                        None => None,
                    },
                    Seq::empty(),
                    (true, seq!["/token"@]),
                )
            } else if !(200 <= rs[0].0 <= 299) {
                DigestFlow::Failed("Failed to authenticate: "@ + rs[0].1)
            } else {
                match rs[0].2 {
                    Err(m) => DigestFlow::Failed(m),
                    Ok(Some(vs)) => if vs.len() > 0 {
                        if rs.len() == 1 {
                            manifest_request(p, registry, repo, tag, vs[0], creds)
                        } else {
                            manifest_answer(rs[1])
                        }
                    } else {
                        DigestFlow::Failed("reply lacks the expected field"@)
                    },
                    Ok(None) => DigestFlow::Failed("reply lacks the expected field"@),
                }
            }
        } else if rs.len() == 0 {
            manifest_request(p, registry, repo, tag, Seq::empty(), creds)
        } else {
            manifest_answer(rs[0])
        }
    }
}

/// A step holds the flow; failures are API errors.
pub open spec fn digest_step_is(s: RegistryStep, f: DigestFlow) -> bool {
    match f {
        DigestFlow::Send(url, auth, accept, rd) => s matches RegistryStep::Send(q) && q.url@ == url && opt_text(q.authorization)
            == auth && q.accept@.map_values(|x: String| x@) == accept && registry_reading_view(q.reading) == rd,
        DigestFlow::Digest(d) => s matches RegistryStep::Done(Ok(x)) && x@ == d,
        DigestFlow::Failed(m) => s matches RegistryStep::Done(Err(PinnerError::Api(e))) && e@ == m,
    }
}

fn basic(user: &str, password: &str) -> (r: String)
    ensures
        r@ == basic_auth(user@, password@),
{
    let a = concat(user, ":");
    let b = concat(a.as_str(), password);
    concat("Basic ", base64_encode(b.as_str()).as_str())
}

fn manifest_request_exec(p: &OciRegistryProvider, registry: &str, repo: &str, tag: &str, token: &str, creds: &Option<(String, String)>) -> (r: RegistryStep)
    ensures
        digest_step_is(r, manifest_request(*p, registry@, repo@, tag@, token@, match creds {
            Some(c) => Some((c.0@, c.1@)),
            None => None,
        })),
{
    proof {
        reveal_strlit("{registry}");
        reveal_strlit("{repository}");
        reveal_strlit("{tag}");
    }
    let a = replace_all(p.base_url_template.as_str(), "{registry}", registry);
    let b = replace_all(a.as_str(), "{repository}", repo);
    let url = replace_all(b.as_str(), "{tag}", tag);
    let authorization = if chars_of(token).len() > 0 {
        Some(concat("Bearer ", token))
    } else {
        match creds {
            Some(c) => Some(basic(c.0.as_str(), c.1.as_str())),
            None => None,
        }
    };
    let accept = vec![owned("application/vnd.oci.image.manifest.v1+json"), owned("application/vnd.docker.distribution.manifest.v2+json")];
    assert(accept@.map_values(|x: String| x@) =~= manifest_types());
    let headers = vec![owned("Docker-Content-Digest"), owned("Digest")];
    assert(headers@.map_values(|x: String| x@) =~= digest_headers());
    RegistryStep::Send(RegistryRequest { url, authorization, accept, reading: RegistryReading::Headers(headers) })
}

fn manifest_answer_exec(r: &Reply) -> (s: RegistryStep)
    ensures
        digest_step_is(s, manifest_answer(reply_view(*r))),
{
    if 200 <= r.code && r.code <= 299 {
        match &r.values {
            Ok(Some(vs)) => if vs.len() > 0 {
                RegistryStep::Done(Ok(vs[0].clone()))
            } else {
                RegistryStep::Done(Err(PinnerError::Api(owned("Digest not found in response headers"))))
            },
            _ => RegistryStep::Done(Err(PinnerError::Api(owned("Digest not found in response headers")))),
        }
    } else {
        RegistryStep::Done(Err(PinnerError::Api(concat("Failed to fetch manifest: HTTP ", r.status.as_str()))))
    }
}

/// What comes next in resolving `image:tag` (see [`digest_flow`]), with the
/// credentials the helpers gave for the registry, if any.
pub fn digest_step(p: &OciRegistryProvider, image: &str, tag: &str, helper: &Option<(String, String)>, replies: &Vec<Reply>) -> (r: RegistryStep)
    ensures
        digest_step_is(r, digest_flow(*p, image@, tag@, match helper {
            Some(c) => Some((c.0@, c.1@)),
            None => None,
        }, replies_view(replies@))),
{
    if p.offline {
        let a = concat("Network request to resolve OCI digest for ", image);
        let b = concat(a.as_str(), "@");
        let c = concat(b.as_str(), tag);
        return RegistryStep::Done(Err(PinnerError::Api(concat(c.as_str(), " is disabled in offline mode"))));
    }
    let (registry, repo) = locate_image(image);
    let creds: Option<(String, String)> = match (&p.username, &p.password) {
        (Some(u), Some(w)) => Some((u.clone(), w.clone())),
        _ => match helper {
            Some(c) => Some((c.0.clone(), c.1.clone())),
            None => None,
        },
    };
    assert(match creds {
        Some(c) => Some((c.0@, c.1@)),
        None => None,
    } == credentials(*p, match helper {
        Some(c) => Some((c.0@, c.1@)),
        None => None,
    }));
    proof {
        reveal_strlit("");
    }
    assert(""@ =~= Seq::<char>::empty());
    let hub = str_eq(registry.as_str(), "docker.io") || str_eq(registry.as_str(), "registry-1.docker.io");
    if hub {
        if replies.len() == 0 {
            let a = concat(p.auth_url.as_str(), "?service=registry.docker.io&scope=repository:");
            let b = concat(a.as_str(), repo.as_str());
            let url = concat(b.as_str(), ":pull");
            let authorization = match &creds {
                Some(c) => Some(basic(c.0.as_str(), c.1.as_str())),
                None => None,
            };
            let accept: Vec<String> = Vec::new();
            assert(accept@.map_values(|x: String| x@) =~= Seq::<Seq<char>>::empty());
            let field = owned("/token");
            return RegistryStep::Send(RegistryRequest { url, authorization, accept, reading: RegistryReading::Json(field) });
        }
        let r0 = &replies[0];
        assert(replies_view(replies@)[0] == reply_view(replies@[0]));
        if !(200 <= r0.code && r0.code <= 299) {
            return RegistryStep::Done(Err(PinnerError::Api(concat("Failed to authenticate: ", r0.status.as_str()))));
        }
        match &r0.values {
            Err(m) => RegistryStep::Done(Err(PinnerError::Api(m.clone()))),
            Ok(Some(vs)) => if vs.len() > 0 {
                if replies.len() == 1 {
                    manifest_request_exec(p, registry.as_str(), repo.as_str(), tag, vs[0].as_str(), &creds)
                } else {
                    assert(replies_view(replies@)[1] == reply_view(replies@[1]));
                    manifest_answer_exec(&replies[1])
                }
            } else {
                RegistryStep::Done(Err(PinnerError::Api(owned("reply lacks the expected field"))))
            },
            Ok(None) => RegistryStep::Done(Err(PinnerError::Api(owned("reply lacks the expected field")))),
        }
    } else if replies.len() == 0 {
        manifest_request_exec(p, registry.as_str(), repo.as_str(), tag, "", &creds)
    } else {
        assert(replies_view(replies@)[0] == reply_view(replies@[0]));
        manifest_answer_exec(&replies[0])
    }
}

} // verus!
