//! Image references and the rules of pulling an image: registry addresses,
//! manifests, blob digests, image ids and image metadata.

use vstd::prelude::*;
use vstd::string::*;
use crate::error::{ShimError, json_error_text};
use crate::text::{
    contains_char, decimal, find_first, find_last, first_index_of, last_index_of,
    lemma_first_index_at, lemma_first_index_of, lemma_last_index_at, lemma_last_index_of, parse_unsigned,
    parse_unsigned_spec, split_char, split_spec,
    starts_with, starts_with_spec, str_eq, u64_to_string,
};

verus! {

/// A reference to an image in a registry, such as `ghcr.io/user/repo:v1.0`.
#[derive(Debug)]
pub struct ImageReference {
    /// The registry host, such as `docker.io`.
    pub registry: String,
    /// The repository, such as `library/alpine`.
    pub repository: String,
    /// The tag or digest, such as `latest`.
    pub reference: String,
}

/// The mathematical value of an [`ImageReference`].
pub struct ImageReferenceView {
    pub registry: Seq<char>,
    pub repository: Seq<char>,
    pub reference: Seq<char>,
}

impl View for ImageReference {
    type V = ImageReferenceView;

    open spec fn view(&self) -> ImageReferenceView {
        ImageReferenceView { registry: self.registry@, repository: self.repository@, reference: self.reference@ }
    }
}

/// The name part and the tag or digest part of a reference: a digest follows
/// the first `@`; otherwise a tag follows the last `:` that comes after the
/// last `/`; otherwise the tag is `latest`.
pub open spec fn split_name_tag(s: Seq<char>) -> (Seq<char>, Seq<char>) {
    let at = first_index_of(s, '@');
    if at >= 0 {
        (s.take(at), s.skip(at + 1))
    } else {
        let colon = last_index_of(s, ':');
        let slash = last_index_of(s, '/');
        if colon > slash {
            (s.take(colon), s.skip(colon + 1))
        } else {
            (s, "latest"@)
        }
    }
}

/// Whether the first component of a name is a registry host: it holds a `.`
/// or a `:`, or it is `localhost`.
pub open spec fn is_registry_host(p: Seq<char>) -> bool {
    contains_char(p, '.') || contains_char(p, ':') || p == "localhost"@
}

/// The registry and repository of a name: the first component when it is a
/// registry host, else `docker.io`; a single-component repository on
/// `docker.io` lives under `library/`.
pub open spec fn split_registry(name: Seq<char>) -> (Seq<char>, Seq<char>) {
    let slash = first_index_of(name, '/');
    let (registry, repository) = if slash >= 0 && is_registry_host(name.take(slash)) {
        (name.take(slash), name.skip(slash + 1))
    } else {
        ("docker.io"@, name)
    };
    if registry == "docker.io"@ && !contains_char(repository, '/') {
        (registry, "library/"@ + repository)
    } else {
        (registry, repository)
    }
}

/// What parsing a reference gives: nothing for an empty reference or one with
/// an empty name, repository or tag.
pub open spec fn parse_reference_spec(s: Seq<char>) -> Option<ImageReferenceView> {
    let (name, tag) = split_name_tag(s);
    let (registry, repository) = split_registry(name);
    if s.len() == 0 || name.len() == 0 || tag.len() == 0 || repository.len() == 0 {
        None
    } else {
        Some(ImageReferenceView { registry, repository, reference: tag })
    }
}

/// The full name of a reference: `registry/repository:tag`, or
/// `registry/repository@digest` for a digest (a reference holding `:`).
pub open spec fn full_name_spec(r: ImageReferenceView) -> Seq<char> {
    if contains_char(r.reference, ':') {
        r.registry + "/"@ + r.repository + "@"@ + r.reference
    } else {
        r.registry + "/"@ + r.repository + ":"@ + r.reference
    }
}

impl ImageReference {
    /// Parses an image reference such as `alpine`, `alpine:3.18` or
    /// `ghcr.io/user/repo:v1.0`.
    pub fn parse(s: &str) -> (r: Option<ImageReference>)
        ensures
            match parse_reference_spec(s@) {
                Some(v) => r matches Some(x) && x@ == v,
                None => r is None,
            },
    {
        let n = s.unicode_len();
        let (name, tag): (&str, String) = match find_first(s, '@') {
            Some(at) => (s.substring_char(0, at), String::from_str(s.substring_char(at + 1, n))),
            None => {
                let colon = find_last(s, ':');
                let slash = find_last(s, '/');
                match colon {
                    Some(c) => {
                        let after_slash = match slash {
                            Some(sl) => c > sl,
                            None => true,
                        };
                        if after_slash {
                            (s.substring_char(0, c), String::from_str(s.substring_char(c + 1, n)))
                        } else {
                            (s, String::from_str("latest"))
                        }
                    },
                    None => (s, String::from_str("latest")),
                }
            },
        };
        proof {
            assert((name@, tag@) == split_name_tag(s@));
        }
        let name_len = name.unicode_len();
        let (registry0, repository0): (String, String) = match find_first(name, '/') {
            Some(sl) => {
                let first = name.substring_char(0, sl);
                let host = find_first(first, '.').is_some() || find_first(first, ':').is_some()
                    || str_eq(first, "localhost");
                if host {
                    (String::from_str(first), String::from_str(name.substring_char(sl + 1, name_len)))
                } else {
                    (String::from_str("docker.io"), String::from_str(name))
                }
            },
            None => (String::from_str("docker.io"), String::from_str(name)),
        };
        let registry = registry0;
        let repository = if str_eq(registry.as_str(), "docker.io") && find_first(repository0.as_str(), '/').is_none() {
            let mut r = String::from_str("library/");
            r.append(repository0.as_str());
            r
        } else {
            repository0
        };
        proof {
            assert((registry@, repository@) == split_registry(name@));
        }
        if n == 0 || name_len == 0 || tag.as_str().unicode_len() == 0 || repository.as_str().unicode_len() == 0 {
            return None;
        }
        Some(ImageReference { registry, repository, reference: tag })
    }

    /// The full name of the reference.
    pub fn full_name(&self) -> (s: String)
        ensures
            s@ == full_name_spec(self@),
    {
        let mut s = self.registry.clone();
        s.append("/");
        s.append(self.repository.as_str());
        if find_first(self.reference.as_str(), ':').is_some() {
            s.append("@");
        } else {
            s.append(":");
        }
        s.append(self.reference.as_str());
        s
    }
}

/// `c` occurs in `s` exactly when some position of `s` holds it.
pub proof fn lemma_contains_char(s: Seq<char>, c: char)
    ensures
        contains_char(s, c) <==> exists|j: int| 0 <= j < s.len() && s[j] == c,
{
    lemma_first_index_of(s, c);
    if contains_char(s, c) {
        let f = first_index_of(s, c);
        assert(s[f] == c);
    }
}

/// The name part of a reference holds no `@`.
proof fn lemma_name_has_no_at(s: Seq<char>)
    ensures
        forall|j: int| 0 <= j < split_name_tag(s).0.len() ==> split_name_tag(s).0[j] != '@',
{
    reveal_strlit("latest");
    lemma_first_index_of(s, '@');
    lemma_last_index_of(s, ':');
    lemma_last_index_of(s, '/');
    let at = first_index_of(s, '@');
    if at >= 0 {
        assert forall|j: int| 0 <= j < split_name_tag(s).0.len() implies split_name_tag(s).0[j] != '@' by {
            assert(split_name_tag(s).0[j] == s[j]);
        }
    } else {
        let colon = last_index_of(s, ':');
        let slash = last_index_of(s, '/');
        let name = split_name_tag(s).0;
        assert(forall|j: int| 0 <= j < s.len() ==> s[j] != '@');
        if colon > slash {
            assert(0 <= colon < s.len());
            assert(name == s.take(colon));
            assert forall|j: int| 0 <= j < name.len() implies name[j] != '@' by {
                assert(name[j] == s[j]);
            }
        } else {
            assert(name == s);
        }
    }
}

/// Reading back the full name of a parsed reference gives the same reference,
/// unless its tag has no `:` but holds an `@` or a `/`: such a tag can only
/// follow an `@`, and in a full name it would be read as part of the name.
pub proof fn law_reference_round_trip(s: Seq<char>)
    requires
        parse_reference_spec(s) is Some,
        contains_char(parse_reference_spec(s)->0.reference, ':') || (!contains_char(
            parse_reference_spec(s)->0.reference,
            '@',
        ) && !contains_char(parse_reference_spec(s)->0.reference, '/')),
    ensures
        parse_reference_spec(full_name_spec(parse_reference_spec(s)->0)) == parse_reference_spec(s),
{
    reveal_strlit("docker.io");
    reveal_strlit("library/");
    reveal_strlit("/");
    reveal_strlit("@");
    reveal_strlit(":");
    let r = parse_reference_spec(s)->0;
    let (name, tag) = split_name_tag(s);
    lemma_name_has_no_at(s);
    let slash = first_index_of(name, '/');
    lemma_first_index_of(name, '/');
    let first = name.take(slash);
    let p0 = if slash >= 0 && is_registry_host(first) { name.skip(slash + 1) } else { name };
    let reg = r.registry;
    let rep = r.repository;
    assert(tag == r.reference);
    // The registry holds neither `/` nor `@`, and is a registry host.
    assert(forall|j: int| 0 <= j < reg.len() ==> reg[j] != '/' && reg[j] != '@');
    assert(is_registry_host(reg)) by {
        if !(slash >= 0 && is_registry_host(first)) {
            assert(reg == "docker.io"@);
            lemma_contains_char(reg, '.');
            assert(reg[6] == '.');
        }
    }
    // The repository holds no `@`; on Docker Hub it holds a `/`.
    assert forall|j: int| 0 <= j < p0.len() implies p0[j] != '@' by {
        if slash >= 0 && is_registry_host(first) {
            assert(p0[j] == name[j + slash + 1]);
        }
    }
    assert(forall|j: int| 0 <= j < rep.len() ==> rep[j] != '@') by {
        if rep != p0 {
            assert(rep == "library/"@ + p0);
            assert forall|j: int| 0 <= j < rep.len() implies rep[j] != '@' by {
                if j >= 8 {
                    assert(rep[j] == p0[j - 8]);
                }
            }
        }
    }
    assert(reg == "docker.io"@ ==> contains_char(rep, '/')) by {
        if reg == "docker.io"@ && rep != p0 {
            lemma_contains_char(rep, '/');
            assert(rep[7] == '/');
        }
    }
    let f = reg + "/"@ + rep;
    let k = f.len() as int;
    let full = full_name_spec(r);
    assert(forall|j: int| 0 <= j < k ==> f[j] != '@') by {
        assert forall|j: int| 0 <= j < k implies f[j] != '@' by {
            if j > reg.len() {
                assert(f[j] == rep[j - reg.len() - 1]);
            }
        }
    }
    lemma_contains_char(tag, ':');
    lemma_contains_char(tag, '@');
    lemma_contains_char(tag, '/');
    if contains_char(tag, ':') {
        assert(full =~= f + "@"@ + tag);
        assert(full[k] == '@');
        lemma_first_index_at(full, '@', k);
        assert(full.take(k) =~= f);
        assert(full.skip(k + 1) =~= tag);
    } else {
        assert(full =~= f + ":"@ + tag);
        assert(full[k] == ':');
        assert forall|j: int| 0 <= j < full.len() implies full[j] != '@' by {
            if j > k {
                assert(full[j] == tag[j - k - 1]);
            }
        }
        lemma_first_index_at(full, '@', -1);
        assert forall|j: int| 0 <= j < full.len() && j > k implies full[j] != ':' by {
            assert(full[j] == tag[j - k - 1]);
        }
        lemma_last_index_at(full, ':', k);
        lemma_last_index_of(full, '/');
        let ls = last_index_of(full, '/');
        if ls >= k {
            if ls > k {
                assert(full[ls] == tag[ls - k - 1]);
            }
            assert(false);
        }
        assert(full.take(k) =~= f);
        assert(full.skip(k + 1) =~= tag);
    }
    assert(split_name_tag(full) == (f, tag));
    // The registry is the first component of the name part again.
    assert(f[reg.len() as int] == '/');
    assert forall|j: int| 0 <= j < f.len() && j < reg.len() implies f[j] != '/' by {
        assert(f[j] == reg[j]);
    }
    lemma_first_index_at(f, '/', reg.len() as int);
    assert(f.take(reg.len() as int) =~= reg);
    assert(f.skip(reg.len() as int + 1) =~= rep);
    assert(split_registry(f) == (reg, rep));
    assert(full.len() > 0);
}

/// The address of a registry: Docker Hub's for `docker.io`; a registry given
/// with `http://` or `https://` as it is; any other over `https://`.
pub open spec fn registry_url_spec(registry: Seq<char>) -> Seq<char> {
    if registry == "docker.io"@ {
        "https://registry-1.docker.io"@
    } else if starts_with_spec(registry, "http://"@) || starts_with_spec(registry, "https://"@) {
        registry
    } else {
        "https://"@ + registry
    }
}

/// The address of a registry.
pub fn get_registry_url(registry: &str) -> (url: String)
    ensures
        url@ == registry_url_spec(registry@),
{
    if str_eq(registry, "docker.io") {
        String::from_str("https://registry-1.docker.io")
    } else if starts_with(registry, "http://") || starts_with(registry, "https://") {
        String::from_str(registry)
    } else {
        let mut u = String::from_str("https://");
        u.append(registry);
        u
    }
}

/// The address of an image's manifest:
/// `<registry url>/v2/<repository>/manifests/<reference>`.
pub open spec fn manifest_url_spec(r: ImageReferenceView) -> Seq<char> {
    registry_url_spec(r.registry) + "/v2/"@ + r.repository + "/manifests/"@ + r.reference
}

/// The address of an image's manifest.
pub fn manifest_url(image_ref: &ImageReference) -> (url: String)
    ensures
        url@ == manifest_url_spec(image_ref@),
{
    let mut url = get_registry_url(image_ref.registry.as_str());
    url.append("/v2/");
    url.append(image_ref.repository.as_str());
    url.append("/manifests/");
    url.append(image_ref.reference.as_str());
    url
}

/// The address of a blob of an image's repository:
/// `<registry url>/v2/<repository>/blobs/<digest>`.
pub open spec fn blob_url_spec(r: ImageReferenceView, digest: Seq<char>) -> Seq<char> {
    registry_url_spec(r.registry) + "/v2/"@ + r.repository + "/blobs/"@ + digest
}

/// The address of a blob of an image's repository.
pub fn blob_url(image_ref: &ImageReference, digest: &str) -> (url: String)
    ensures
        url@ == blob_url_spec(image_ref@, digest@),
{
    let mut url = get_registry_url(image_ref.registry.as_str());
    url.append("/v2/");
    url.append(image_ref.repository.as_str());
    url.append("/blobs/");
    url.append(digest);
    url
}

/// Where a pull token is asked for: Docker Hub's token service, for an image
/// on `docker.io`, with a pull scope on its repository; other registries are
/// asked without a token.
pub open spec fn auth_token_url_spec(r: ImageReferenceView) -> Option<Seq<char>> {
    if r.registry == "docker.io"@ {
        Some("https://auth.docker.io/token?service=registry.docker.io&scope=repository:"@ + r.repository + ":pull"@)
    } else {
        None
    }
}

/// Where a pull token for an image is asked for, if anywhere.
pub fn auth_token_url(image_ref: &ImageReference) -> (url: Option<String>)
    ensures
        match auth_token_url_spec(image_ref@) {
            Some(u) => url is Some && url->0@ == u,
            None => url is None,
        },
{
    if str_eq(image_ref.registry.as_str(), "docker.io") {
        let mut url = String::from_str("https://auth.docker.io/token?service=registry.docker.io&scope=repository:");
        url.append(image_ref.repository.as_str());
        url.append(":pull");
        Some(url)
    } else {
        None
    }
}

/// The `Authorization` header value for a token: `Bearer <token>`.
pub fn bearer_header(token: &str) -> (h: String)
    ensures
        h@ == "Bearer "@ + token@,
{
    let mut h = String::from_str("Bearer ");
    h.append(token);
    h
}

/// The numbers among `parts` that parse as `u32`, in order (the pieces that do
/// not parse are skipped).
pub open spec fn parsed_u32s(parts: Seq<Seq<char>>) -> Seq<nat>
    decreases parts.len(),
{
    if parts.len() == 0 {
        Seq::empty()
    } else {
        let r = parsed_u32s(parts.drop_last());
        match parse_unsigned_spec(parts.last(), u32::MAX as nat) {
            Some(v) => r.push(v),
            None => r,
        }
    }
}

/// Every number that `parsed_u32s` gives fits in `u32`.
pub proof fn lemma_parsed_u32s_bounded(parts: Seq<Seq<char>>)
    ensures
        forall|i: int| 0 <= i < parsed_u32s(parts).len() ==> #[trigger] parsed_u32s(parts)[i] <= u32::MAX,
    decreases parts.len(),
{
    if parts.len() > 0 {
        lemma_parsed_u32s_bounded(parts.drop_last());
        let r = parsed_u32s(parts.drop_last());
        match parse_unsigned_spec(parts.last(), u32::MAX as nat) {
            Some(v) => {
                assert(v <= u32::MAX);
                assert forall|i: int| 0 <= i < r.push(v).len() implies #[trigger] r.push(v)[i] <= u32::MAX by {
                    if i < r.len() {
                        assert(r.push(v)[i] == r[i]);
                    }
                }
            },
            None => {},
        }
    }
}

/// The year, month and day of an RFC 3339 timestamp such as
/// `2024-01-15T10:30:00Z`: the text must have exactly one `T`, and the part
/// before it exactly three `-`-separated pieces that parse as numbers.
pub open spec fn rfc3339_date(s: Seq<char>) -> Option<(nat, nat, nat)> {
    let parts = split_spec(s, 'T');
    if parts.len() != 2 {
        None
    } else {
        let d = parsed_u32s(split_spec(parts[0], '-'));
        if d.len() != 3 {
            None
        } else {
            Some((d[0], d[1], d[2]))
        }
    }
}

/// The approximate number of days since the epoch: 365 days a year and 30 a
/// month.
pub open spec fn approx_days(y: nat, m: nat, d: nat) -> int {
    (y - 1970) * 365 + (m - 1) * 30 + d
}

/// Whether the approximate timestamp of a date is computed without leaving
/// the range of `u32`.
pub open spec fn timestamp_fits(y: nat, m: nat, d: nat) -> bool {
    y >= 1970 && m >= 1 && approx_days(y, m, d) * 86400 <= u32::MAX
}

/// Whether the approximate timestamp of `s` is computed without leaving the
/// range of `u32` (true when `s` has no date).
pub open spec fn rfc3339_fits(s: Seq<char>) -> bool {
    match rfc3339_date(s) {
        Some((y, m, d)) => timestamp_fits(y, m, d),
        None => true,
    }
}

/// The approximate timestamp of `s`, in seconds since the epoch.
pub open spec fn rfc3339_timestamp_spec(s: Seq<char>) -> Option<u64> {
    match rfc3339_date(s) {
        Some((y, m, d)) => Some((approx_days(y, m, d) * 86400) as u64),
        None => None,
    }
}

/// The year, month and day of an RFC 3339 timestamp.
pub fn rfc3339_fields(s: &str) -> (r: Option<(u32, u32, u32)>)
    ensures
        match rfc3339_date(s@) {
            Some((y, m, d)) => r == Some((y as u32, m as u32, d as u32)) && y <= u32::MAX && m <= u32::MAX
                && d <= u32::MAX,
            None => r is None,
        },
{
    let parts = split_char(s, 'T');
    proof {
        assert(parts@.map_values(|p: String| p@).len() == parts@.len());
    }
    if parts.len() != 2 {
        return None;
    }
    let pieces = split_char(parts[0].as_str(), '-');
    proof {
        assert(parts@.map_values(|p: String| p@)[0] == parts@[0]@);
    }
    let mut nums: Vec<u32> = Vec::new();
    let mut i: usize = 0;
    let ghost ps = pieces@.map_values(|p: String| p@);
    proof {
        assert(ps.take(0) =~= Seq::<Seq<char>>::empty());
        assert(nums@.map_values(|v: u32| v as nat) =~= parsed_u32s(ps.take(0)));
    }
    while i < pieces.len()
        invariant
            i <= pieces@.len(),
            ps == pieces@.map_values(|p: String| p@),
            nums@.map_values(|v: u32| v as nat) == parsed_u32s(ps.take(i as int)),
        decreases pieces@.len() - i,
    {
        proof {
            assert(ps.take(i + 1).drop_last() =~= ps.take(i as int));
            assert(ps.take(i + 1).last() == pieces@[i as int]@);
        }
        let ghost prev = nums@;
        match parse_unsigned(pieces[i].as_str(), 4294967295) {
            Some(v) => {
                nums.push(v as u32);
                proof {
                    assert(nums@.map_values(|v: u32| v as nat) =~= prev.map_values(|v: u32| v as nat).push(v as nat));
                }
            },
            None => {},
        }
        i = i + 1;
    }
    proof {
        assert(ps.take(i as int) =~= ps);
    }
    if nums.len() != 3 {
        return None;
    }
    proof {
        lemma_parsed_u32s_bounded(split_spec(parts@[0]@, '-'));
        assert(nums@.map_values(|v: u32| v as nat)[0] == nums@[0] as nat);
        assert(nums@.map_values(|v: u32| v as nat)[1] == nums@[1] as nat);
        assert(nums@.map_values(|v: u32| v as nat)[2] == nums@[2] as nat);
    }
    Some((nums[0], nums[1], nums[2]))
}

/// Whether the approximate timestamp of `s` stays in the range of `u32`.
pub fn rfc3339_timestamp_fits(s: &str) -> (b: bool)
    ensures
        b == rfc3339_fits(s@),
{
    match rfc3339_fields(s) {
        Some((y, m, d)) => {
            if y < 1970 || m < 1 {
                false
            } else {
                let days: u128 = (y as u128 - 1970) * 365 + (m as u128 - 1) * 30 + d as u128;
                days * 86400 <= 4294967295
            }
        },
        None => true,
    }
}

/// The approximate timestamp of an RFC 3339 date, in seconds since the epoch
/// (365 days a year, 30 a month; the time of day is not read).
pub fn parse_rfc3339_timestamp(s: &str) -> (r: Option<u64>)
    requires
        rfc3339_fits(s@),
    ensures
        r == rfc3339_timestamp_spec(s@),
{
    match rfc3339_fields(s) {
        Some((year, month, day)) => {
            proof {
                assert(approx_days(year as nat, month as nat, day as nat) <= u32::MAX / 86400);
                assert((year - 1970) * 365 <= u32::MAX);
            }
            let days_since_epoch: u32 = (year - 1970) * 365 + (month - 1) * 30 + day;
            Some((days_since_epoch * 86400) as u64)
        },
        None => None,
    }
}

/// The short id of an image: the twelve characters after `sha256:` of its
/// config digest, or the first twelve characters of another digest.
pub open spec fn short_image_id_spec(digest: Seq<char>) -> Seq<char> {
    if starts_with_spec(digest, "sha256:"@) {
        digest.subrange(7, 19)
    } else {
        digest.take(12)
    }
}

/// Whether a digest is long enough to take a short id from.
pub open spec fn digest_long_enough(digest: Seq<char>) -> bool {
    if starts_with_spec(digest, "sha256:"@) { digest.len() >= 19 } else { digest.len() >= 12 }
}

/// The short id of an image with the given config digest.
pub fn short_image_id(config_digest: &str) -> (id: String)
    requires
        digest_long_enough(config_digest@),
    ensures
        id@ == short_image_id_spec(config_digest@),
{
    if starts_with(config_digest, "sha256:") {
        String::from_str(config_digest.substring_char(7, 19))
    } else {
        String::from_str(config_digest.substring_char(0, 12))
    }
}

/// `s` with every occurrence of `pat` removed, scanning from the left.
pub open spec fn remove_all(s: Seq<char>, pat: Seq<char>) -> Seq<char>
    decreases s.len(),
{
    if s.len() == 0 {
        s
    } else if pat.len() > 0 && starts_with_spec(s, pat) {
        remove_all(s.skip(pat.len() as int), pat)
    } else {
        seq![s[0]] + remove_all(s.skip(1), pat)
    }
}

/// `s` with every `sha256:` removed.
pub fn strip_sha256(s: &str) -> (r: String)
    ensures
        r@ == remove_all(s@, "sha256:"@),
{
    proof { reveal_strlit("sha256:"); }
    let n = s.unicode_len();
    let mut r = String::new();
    let mut i: usize = 0;
    proof {
        assert(s@.skip(0) =~= s@);
        assert(r@ + remove_all(s@.skip(0), "sha256:"@) =~= remove_all(s@, "sha256:"@));
    }
    while i < n
        invariant
            n == s@.len(),
            i <= n,
            "sha256:"@.len() == 7,
            r@ + remove_all(s@.skip(i as int), "sha256:"@) == remove_all(s@, "sha256:"@),
        decreases n - i,
    {
        let rest = s.substring_char(i, n);
        proof {
            assert(rest@ =~= s@.skip(i as int));
        }
        if starts_with(rest, "sha256:") {
            proof {
                assert(s@.skip(i as int).skip(7) =~= s@.skip(i + 7));
            }
            i = i + 7;
        } else {
            let ghost prev = r@;
            r.append(s.substring_char(i, i + 1));
            proof {
                assert(s@.skip(i as int).skip(1) =~= s@.skip(i + 1));
                assert(s@.subrange(i as int, i + 1) =~= seq![s@.skip(i as int)[0]]);
                assert(r@ + remove_all(s@.skip(i + 1), "sha256:"@) =~= prev + (seq![s@.skip(i as int)[0]] + remove_all(s@.skip(i as int).skip(1), "sha256:"@)));
            }
            i = i + 1;
        }
    }
    proof {
        assert(s@.skip(i as int) =~= Seq::<char>::empty());
        assert(r@ + Seq::<char>::empty() =~= r@);
    }
    r
}

/// The file a layer is stored in: the first twelve characters of its digest
/// with `sha256:` removed, then `.tar.gz`.
pub open spec fn layer_file_name_spec(digest: Seq<char>) -> Seq<char> {
    remove_all(digest, "sha256:"@).take(12) + ".tar.gz"@
}

/// The file a layer with the given digest is stored in.
pub fn layer_file_name(digest: &str) -> (r: String)
    requires
        remove_all(digest@, "sha256:"@).len() >= 12,
    ensures
        r@ == layer_file_name_spec(digest@),
{
    let stripped = strip_sha256(digest);
    let mut r = String::from_str(stripped.as_str().substring_char(0, 12));
    r.append(".tar.gz");
    r
}

/// The fields of a manifest document that pulling reads. For a manifest list
/// (`manifests` array), each entry's platform; for an image manifest, the
/// config digest and each layer's digest and size. A field that is absent or
/// not of the expected JSON type is `None`.
#[derive(Debug)]
pub struct ManifestDoc {
    pub manifests: Option<Vec<ManifestPlatform>>,
    pub config_digest: Option<String>,
    pub layers: Option<Vec<ManifestLayer>>,
}

/// The platform of one entry of a manifest list.
#[derive(Debug)]
pub struct ManifestPlatform {
    pub os: Option<String>,
    pub architecture: Option<String>,
}

/// One layer entry of an image manifest.
#[derive(Debug)]
pub struct ManifestLayer {
    pub digest: Option<String>,
    pub size: Option<u64>,
}

/// The view of an optional text.
pub open spec fn opt_text(o: Option<String>) -> Option<Seq<char>> {
    match o {
        Some(x) => Some(x@),
        None => None,
    }
}

impl View for ManifestPlatform {
    type V = (Option<Seq<char>>, Option<Seq<char>>);

    /// The operating system and architecture, as text.
    open spec fn view(&self) -> Self::V {
        (opt_text(self.os), opt_text(self.architecture))
    }
}

impl View for ManifestLayer {
    type V = (Option<Seq<char>>, Option<u64>);

    /// The digest, as text, and the size.
    open spec fn view(&self) -> Self::V {
        (opt_text(self.digest), self.size)
    }
}

impl View for ManifestDoc {
    type V = (Option<Seq<(Option<Seq<char>>, Option<Seq<char>>)>>, Option<Seq<char>>, Option<Seq<(Option<Seq<char>>, Option<u64>)>>);

    /// The manifest list's platforms, the config digest and the layers.
    open spec fn view(&self) -> Self::V {
        (
            match self.manifests { Some(m) => Some(m@.map_values(|p: ManifestPlatform| p@)), None => None },
            opt_text(self.config_digest),
            match self.layers { Some(l) => Some(l@.map_values(|x: ManifestLayer| x@)), None => None },
        )
    }
}

/// What the JSON text of a manifest gives: the `platform.os` and
/// `platform.architecture` strings of each item of `manifests`, the
/// `config.digest` string, and the `digest` string and `size` integer of each
/// item of `layers` (each `None` when absent or of another JSON type); or
/// nothing when the text is not JSON.
pub uninterp spec fn manifest_json_doc(text: Seq<char>) -> Option<(Option<Seq<(Option<Seq<char>>, Option<Seq<char>>)>>, Option<Seq<char>>, Option<Seq<(Option<Seq<char>>, Option<u64>)>>)>;

/// Calls `serde_json::from_str` into a `serde_json::Value` and reads the
/// fields a pull takes with `Value`'s indexing, `as_str`, `as_array` and
/// `as_u64`. The contract claims that the outcome is a function of the text
/// alone, named `manifest_json_doc`: the fields read on success, nothing when
/// serde_json refuses the text.
#[verifier::external_body]
fn parse_manifest_json(text: &str) -> (r: Result<ManifestDoc, serde_json::Error>)
    ensures
        r matches Ok(d) ==> manifest_json_doc(text@) == Some(d@),
        r is Err ==> manifest_json_doc(text@) is None,
{
    let v: serde_json::Value = serde_json::from_str(text)?;
    let s = |x: &serde_json::Value| x.as_str().map(|t| t.to_string());
    Ok(ManifestDoc {
        manifests: v["manifests"].as_array().map(|a| {
            a.iter().map(|m| ManifestPlatform { os: s(&m["platform"]["os"]), architecture: s(&m["platform"]["architecture"]) }).collect()
        }),
        config_digest: s(&v["config"]["digest"]),
        layers: v["layers"].as_array().map(|a| a.iter().map(|l| ManifestLayer { digest: s(&l["digest"]), size: l["size"].as_u64() }).collect()),
    })
}

/// The manifest a registry answered with `text`, or, for a text that is not
/// JSON, a runtime error that starts `Failed to parse manifest: ` (then the
/// parser's message).
pub fn manifest_doc_from_text(text: &str) -> (r: Result<ManifestDoc, ShimError>)
    ensures
        match manifest_json_doc(text@) {
            Some(v) => r matches Ok(d) && d@ == v,
            None => r matches Err(ShimError::Runtime { message, context: None })
                && starts_with_spec(message@, "Failed to parse manifest: "@),
        },
{
    match parse_manifest_json(text) {
        Ok(d) => Ok(d),
        Err(e) => {
            let mut m = String::from_str("Failed to parse manifest: ");
            let ghost prefix = m@;
            let t = json_error_text(&e);
            m.append(t.as_str());
            proof {
                reveal_strlit("Failed to parse manifest: ");
                assert(m@.subrange(0, prefix.len() as int) =~= prefix);
            }
            Err(ShimError::runtime(m.as_str()))
        },
    }
}

/// What the JSON text of a registry's token answer gives: its `token` string
/// (`None` when absent or of another JSON type); or nothing when the text is
/// not JSON.
pub uninterp spec fn auth_json_token(text: Seq<char>) -> Option<Option<Seq<char>>>;

/// Calls `serde_json::from_str` into a `serde_json::Value` and reads its
/// `token` with indexing and `as_str`. The contract claims that the outcome
/// is a function of the text alone, named `auth_json_token`.
#[verifier::external_body]
fn parse_auth_json(text: &str) -> (r: Result<Option<String>, serde_json::Error>)
    ensures
        r matches Ok(t) ==> auth_json_token(text@) == Some(opt_text(t)),
        r is Err ==> auth_json_token(text@) is None,
{
    let v: serde_json::Value = serde_json::from_str(text)?;
    Ok(v["token"].as_str().map(|t| t.to_string()))
}

/// The token a registry's token answer `text` holds, if any, or, for a text
/// that is not JSON, a runtime error that starts `Failed to parse auth
/// response: ` (then the parser's message).
pub fn auth_token_from_text(text: &str) -> (r: Result<Option<String>, ShimError>)
    ensures
        match auth_json_token(text@) {
            Some(t) => r matches Ok(x) && opt_text(x) == t,
            None => r matches Err(ShimError::Runtime { message, context: None })
                && starts_with_spec(message@, "Failed to parse auth response: "@),
        },
{
    match parse_auth_json(text) {
        Ok(t) => Ok(t),
        Err(e) => {
            let mut m = String::from_str("Failed to parse auth response: ");
            let ghost prefix = m@;
            let t = json_error_text(&e);
            m.append(t.as_str());
            proof {
                reveal_strlit("Failed to parse auth response: ");
                assert(m@.subrange(0, prefix.len() as int) =~= prefix);
            }
            Err(ShimError::runtime(m.as_str()))
        },
    }
}

/// Whether a manifest list entry is for Linux on amd64 or arm64 (a missing
/// field counts as the empty string).
pub open spec fn is_supported_platform(p: ManifestPlatform) -> bool {
    let os = match p.os { Some(o) => o@, None => Seq::empty() };
    let arch = match p.architecture { Some(a) => a@, None => Seq::empty() };
    os == "linux"@ && (arch == "amd64"@ || arch == "arm64"@)
}

/// The layers that have a digest, each with its size (0 when absent), in order.
pub open spec fn manifest_layers(layers: Seq<ManifestLayer>) -> Seq<(Seq<char>, u64)>
    decreases layers.len(),
{
    if layers.len() == 0 {
        Seq::empty()
    } else {
        let r = manifest_layers(layers.drop_last());
        match layers.last().digest {
            Some(d) => r.push((d@, match layers.last().size { Some(s) => s, None => 0 })),
            None => r,
        }
    }
}

/// The sum of the sizes of `layers`.
pub open spec fn total_size(layers: Seq<(Seq<char>, u64)>) -> nat
    decreases layers.len(),
{
    if layers.len() == 0 {
        0
    } else {
        total_size(layers.drop_last()) + layers.last().1 as nat
    }
}

/// Whether the total layer size of a manifest fits in `u64` (true when the
/// manifest lists no layers).
pub open spec fn manifest_total_fits(doc: ManifestDoc) -> bool {
    match doc.layers {
        Some(l) => total_size(manifest_layers(l@)) <= u64::MAX,
        None => true,
    }
}

/// The layers of a manifest that have a digest, with their sizes.
fn collect_layers(layers: &Vec<ManifestLayer>) -> (r: Vec<(String, u64)>)
    ensures
        r@.map_values(|p: (String, u64)| (p.0@, p.1)) == manifest_layers(layers@),
{
    let mut r: Vec<(String, u64)> = Vec::new();
    let mut i: usize = 0;
    proof {
        assert(layers@.take(0) =~= Seq::<ManifestLayer>::empty());
        assert(r@.map_values(|p: (String, u64)| (p.0@, p.1)) =~= manifest_layers(layers@.take(0)));
    }
    while i < layers.len()
        invariant
            i <= layers@.len(),
            r@.map_values(|p: (String, u64)| (p.0@, p.1)) == manifest_layers(layers@.take(i as int)),
        decreases layers@.len() - i,
    {
        proof {
            assert(layers@.take(i + 1).drop_last() =~= layers@.take(i as int));
            assert(layers@.take(i + 1).last() == layers@[i as int]);
        }
        let ghost prev = r@;
        match &layers[i].digest {
            Some(d) => {
                let size = match layers[i].size {
                    Some(s) => s,
                    None => 0,
                };
                r.push((d.clone(), size));
                proof {
                    assert(r@.map_values(|p: (String, u64)| (p.0@, p.1)) =~= prev.map_values(|p: (String, u64)| (p.0@, p.1)).push((d@, size)));
                }
            },
            None => {},
        }
        i = i + 1;
    }
    proof {
        assert(layers@.take(i as int) =~= layers@);
    }
    r
}

/// The total size of `layers`, if it fits in `u64`.
fn sum_sizes(layers: &Vec<(String, u64)>) -> (r: Option<u64>)
    ensures
        match r {
            Some(t) => t == total_size(layers@.map_values(|p: (String, u64)| (p.0@, p.1))),
            None => total_size(layers@.map_values(|p: (String, u64)| (p.0@, p.1))) > u64::MAX,
        },
{
    let ghost ls = layers@.map_values(|p: (String, u64)| (p.0@, p.1));
    let mut total: u64 = 0;
    let mut i: usize = 0;
    proof {
        assert(ls.take(0) =~= Seq::<(Seq<char>, u64)>::empty());
    }
    while i < layers.len()
        invariant
            i <= layers@.len(),
            ls == layers@.map_values(|p: (String, u64)| (p.0@, p.1)),
            total == total_size(ls.take(i as int)),
        decreases layers@.len() - i,
    {
        proof {
            assert(ls.take(i + 1).drop_last() =~= ls.take(i as int));
            assert(ls.take(i + 1).last() == ls[i as int]);
        }
        if layers[i].1 > u64::MAX - total {
            proof {
                lemma_total_size_prefix(ls, i + 1);
            }
            return None;
        }
        total = total + layers[i].1;
        i = i + 1;
    }
    proof {
        assert(ls.take(i as int) =~= ls);
    }
    Some(total)
}

/// The total size of a prefix is at most the total size.
pub proof fn lemma_total_size_prefix(ls: Seq<(Seq<char>, u64)>, i: int)
    requires
        0 <= i <= ls.len(),
    ensures
        total_size(ls.take(i)) <= total_size(ls),
    decreases ls.len() - i,
{
    if i < ls.len() {
        lemma_total_size_prefix(ls, i + 1);
        assert(ls.take(i + 1).drop_last() =~= ls.take(i));
    } else {
        assert(ls.take(i) =~= ls);
    }
}

/// The total layer size of a manifest, when it fits in `u64`.
pub fn manifest_total_size(doc: &ManifestDoc) -> (r: Option<u64>)
    ensures
        r is Some <==> manifest_total_fits(*doc),
        r matches Some(t) ==> t == (match doc.layers {
            Some(l) => total_size(manifest_layers(l@)),
            None => 0,
        }),
{
    match &doc.layers {
        Some(l) => {
            let layers = collect_layers(l);
            sum_sizes(&layers)
        },
        None => Some(0),
    }
}

/// What reading a manifest gives: a manifest list that offers Linux on amd64
/// or arm64 is refused (the platform's manifest must be fetched); a missing
/// config digest or layer list is an error; otherwise the config digest, the
/// layers that have a digest with their sizes, and their total size.
pub open spec fn parse_manifest_ok(doc: ManifestDoc, r: Result<(String, Vec<(String, u64)>, u64), ShimError>) -> bool {
    let list_refused = doc.manifests is Some && exists|i: int|
        0 <= i < doc.manifests->0@.len() && is_supported_platform(#[trigger] doc.manifests->0@[i]);
    if list_refused {
        r matches Err(ShimError::Runtime { message, context: None })
            && message@ == "Manifest list detected - fetch specific architecture manifest"@
    } else if doc.config_digest is None {
        r matches Err(ShimError::Runtime { message, context: None }) && message@ == "Missing config digest in manifest"@
    } else if doc.layers is None {
        r matches Err(ShimError::Runtime { message, context: None }) && message@ == "Missing layers in manifest"@
    } else {
        r matches Ok((config, layers, total)) && config@ == doc.config_digest->0@
            && layers@.map_values(|p: (String, u64)| (p.0@, p.1)) == manifest_layers(doc.layers->0@)
            && total == total_size(manifest_layers(doc.layers->0@))
    }
}

fn opt_eq(a: &Option<String>, lit: &str) -> (b: bool)
    ensures
        b == ((match *a { Some(x) => x@, None => Seq::<char>::empty() }) == lit@),
{
    match a {
        Some(s) => {
            str_eq(s.as_str(), lit)
        },
        None => {
            let n = lit.unicode_len();
            proof {
                if n == 0 {
                    assert(lit@ =~= Seq::<char>::empty());
                }
            }
            n == 0
        },
    }
}

/// Reads the config digest and layers of a manifest.
pub fn parse_manifest(doc: &ManifestDoc) -> (r: Result<(String, Vec<(String, u64)>, u64), ShimError>)
    requires
        manifest_total_fits(*doc),
    ensures
        parse_manifest_ok(*doc, r),
{
    if let Some(ms) = &doc.manifests {
        let mut i: usize = 0;
        while i < ms.len()
            invariant
                i <= ms@.len(),
                doc.manifests == Some(*ms),
                forall|j: int| 0 <= j < i ==> !is_supported_platform(#[trigger] ms@[j]),
            decreases ms@.len() - i,
        {
            let p = &ms[i];
            if opt_eq(&p.os, "linux") && (opt_eq(&p.architecture, "amd64") || opt_eq(&p.architecture, "arm64")) {
                proof {
                    assert(doc.manifests->0@ == ms@);
                    assert(is_supported_platform(doc.manifests->0@[i as int]));
                }
                return Err(ShimError::runtime("Manifest list detected - fetch specific architecture manifest"));
            }
            i = i + 1;
        }
    }
    let config = match &doc.config_digest {
        Some(c) => c.clone(),
        None => {
            return Err(ShimError::runtime("Missing config digest in manifest"));
        },
    };
    match &doc.layers {
        Some(l) => {
            let layers = collect_layers(l);
            match sum_sizes(&layers) {
                Some(total) => Ok((config, layers, total)),
                None => Err(ShimError::runtime("Missing layers in manifest")),
            }
        },
        None => Err(ShimError::runtime("Missing layers in manifest")),
    }
}

/// The SHA-256 digest of the given bytes.
pub uninterp spec fn sha256_spec(data: Seq<u8>) -> Seq<u8>;

/// Calls `sha2::Sha256::digest` (through the `sha2::Digest` trait) on `data`.
/// The contract claims that the result is a function of the bytes alone,
/// named `sha256_spec`, and that it is 32 bytes long, as SHA-256 output is.
#[verifier::external_body]
fn sha256(data: &[u8]) -> (r: Vec<u8>)
    ensures
        r@ == sha256_spec(data@),
        r@.len() == 32,
{
    <sha2::Sha256 as sha2::Digest>::digest(data).to_vec()
}

/// The lowercase hexadecimal digit for `n` (0..=15).
pub open spec fn hex_char(n: int) -> char {
    if n < 10 { (n + 48) as char } else { (n + 87) as char }
}

/// The lowercase hexadecimal rendering of `bytes`, two digits per byte.
pub open spec fn hex_spec(bytes: Seq<u8>) -> Seq<char>
    decreases bytes.len(),
{
    if bytes.len() == 0 {
        Seq::empty()
    } else {
        hex_spec(bytes.drop_last()) + seq![hex_char((bytes.last() / 16) as int), hex_char((bytes.last() % 16) as int)]
    }
}

fn hex_digit(n: u8) -> (s: &'static str)
    requires
        n < 16,
    ensures
        s@ == seq![hex_char(n as int)],
{
    proof {
        reveal_strlit("0"); reveal_strlit("1"); reveal_strlit("2"); reveal_strlit("3");
        reveal_strlit("4"); reveal_strlit("5"); reveal_strlit("6"); reveal_strlit("7");
        reveal_strlit("8"); reveal_strlit("9"); reveal_strlit("a"); reveal_strlit("b");
        reveal_strlit("c"); reveal_strlit("d"); reveal_strlit("e"); reveal_strlit("f");
    }
    match n {
        0 => "0", 1 => "1", 2 => "2", 3 => "3", 4 => "4", 5 => "5", 6 => "6", 7 => "7",
        8 => "8", 9 => "9", 10 => "a", 11 => "b", 12 => "c", 13 => "d", 14 => "e", _ => "f",
    }
}

/// The lowercase hexadecimal rendering of `bytes`.
pub fn hex_lower(bytes: &[u8]) -> (s: String)
    ensures
        s@ == hex_spec(bytes@),
{
    let mut s = String::new();
    let mut i: usize = 0;
    proof {
        assert(bytes@.take(0) =~= Seq::<u8>::empty());
    }
    while i < bytes.len()
        invariant
            i <= bytes@.len(),
            s@ == hex_spec(bytes@.take(i as int)),
        decreases bytes@.len() - i,
    {
        let b = bytes[i];
        proof {
            assert(bytes@.take(i + 1).drop_last() =~= bytes@.take(i as int));
            assert(bytes@.take(i + 1).last() == b);
        }
        let ghost prev = s@;
        s.append(hex_digit(b / 16));
        s.append(hex_digit(b % 16));
        proof {
            assert(s@ =~= prev + seq![hex_char((b / 16) as int), hex_char((b % 16) as int)]);
        }
        i = i + 1;
    }
    proof {
        assert(bytes@.take(i as int) =~= bytes@);
    }
    s
}

/// The digest text of a SHA-256 hash: `sha256:` and its hexadecimal rendering.
pub open spec fn digest_text(hash: Seq<u8>) -> Seq<char> {
    "sha256:"@ + hex_spec(hash)
}

/// What checking a hash against an expected digest gives: nothing when the
/// digest text of the hash is the expected digest, else a runtime error
/// naming both.
pub open spec fn digest_check_ok(hash: Seq<u8>, expected: Seq<char>, r: Result<(), ShimError>) -> bool {
    if digest_text(hash) == expected {
        r is Ok
    } else {
        r matches Err(ShimError::Runtime { message, context: None })
            && message@ == "Digest mismatch: expected "@ + expected + ", got "@ + digest_text(hash)
    }
}

/// Checks a SHA-256 hash against the digest a blob was asked for.
pub fn check_digest(hash: &[u8], expected: &str) -> (r: Result<(), ShimError>)
    ensures
        digest_check_ok(hash@, expected@, r),
{
    let mut computed = String::from_str("sha256:");
    let h = hex_lower(hash);
    computed.append(h.as_str());
    if str_eq(computed.as_str(), expected) {
        Ok(())
    } else {
        let mut m = String::from_str("Digest mismatch: expected ");
        m.append(expected);
        m.append(", got ");
        m.append(computed.as_str());
        Err(ShimError::runtime(m.as_str()))
    }
}

/// Checks downloaded bytes against the digest they were asked for.
pub fn verify_blob(data: &[u8], expected: &str) -> (r: Result<(), ShimError>)
    ensures
        digest_check_ok(sha256_spec(data@), expected@, r),
{
    let hash = sha256(data);
    check_digest(hash.as_slice(), expected)
}

/// A SHA-256 hash in progress over a blob that arrives in chunks.
#[verifier::external_body]
pub struct BlobHasher {
    inner: sha2::Sha256,
}

/// The bytes fed to a blob hasher so far.
pub uninterp spec fn blob_hasher_input(h: BlobHasher) -> Seq<u8>;

impl BlobHasher {
    /// Calls `sha2::Sha256::new` (through `sha2::Digest`): a hasher that has
    /// been fed nothing.
    #[verifier::external_body]
    pub fn new() -> (h: Self)
        ensures
            blob_hasher_input(h) == Seq::<u8>::empty(),
    {
        BlobHasher { inner: <sha2::Sha256 as sha2::Digest>::new() }
    }

    /// Calls `sha2::Digest::update`: the chunk is appended to what the hasher
    /// has been fed.
    #[verifier::external_body]
    pub fn update(&mut self, chunk: &[u8])
        ensures
            blob_hasher_input(*final(self)) == blob_hasher_input(*old(self)) + chunk@,
    {
        sha2::Digest::update(&mut self.inner, chunk);
    }

    /// Calls `sha2::Digest::finalize`: the SHA-256 digest of everything the
    /// hasher was fed, the same as hashing those bytes at once.
    #[verifier::external_body]
    pub fn finish(self) -> (r: Vec<u8>)
        ensures
            r@ == sha256_spec(blob_hasher_input(self)),
            r@.len() == 32,
    {
        sha2::Digest::finalize(self.inner).to_vec()
    }
}

/// Checks a blob that was hashed chunk by chunk against the digest it was
/// asked for.
pub fn finish_blob(h: BlobHasher, expected: &str) -> (r: Result<(), ShimError>)
    ensures
        digest_check_ok(sha256_spec(blob_hasher_input(h)), expected@, r),
{
    let hash = h.finish();
    check_digest(hash.as_slice(), expected)
}

/// A pulled image.
#[derive(Debug)]
pub struct ImageInfo {
    pub reference: ImageReference,
    /// The short id of the image.
    pub id: String,
    /// The total size of its layers in bytes.
    pub size: u64,
    /// Creation time in seconds since the epoch (0 when unknown).
    pub created: u64,
    pub architecture: String,
    pub os: String,
    pub labels: Vec<(String, String)>,
}

/// The fields of an image config document that pulling reads; a field that is
/// absent or not a string is `None`. Each label comes with its value when the
/// value is a string.
pub struct ImageConfigFields {
    pub architecture: Option<String>,
    pub os: Option<String>,
    pub created: Option<String>,
    pub labels: Option<Vec<(String, Option<String>)>>,
}

/// The labels whose value is a string, in order.
pub open spec fn string_labels(labels: Seq<(String, Option<String>)>) -> Seq<(Seq<char>, Seq<char>)>
    decreases labels.len(),
{
    if labels.len() == 0 {
        Seq::empty()
    } else {
        let r = string_labels(labels.drop_last());
        match labels.last().1 {
            Some(v) => r.push((labels.last().0@, v@)),
            None => r,
        }
    }
}

/// The views of a list of labels.
pub open spec fn labels_view(labels: Seq<(String, String)>) -> Seq<(Seq<char>, Seq<char>)> {
    labels.map_values(|p: (String, String)| (p.0@, p.1@))
}

/// Whether the creation time of an image config can be read without leaving
/// the range of `u32`.
pub open spec fn config_created_fits(fields: ImageConfigFields) -> bool {
    match fields.created {
        Some(c) => rfc3339_fits(c@),
        None => true,
    }
}

fn string_or(v: &Option<String>, default: &str) -> (r: String)
    ensures
        r@ == (match *v {
            Some(x) => x@,
            None => default@,
        }),
{
    match v {
        Some(x) => x.clone(),
        None => String::from_str(default),
    }
}

/// The views of labels: each key with its value's text, `None` when the value
/// is not a string.
pub open spec fn label_views(labels: Seq<(String, Option<String>)>) -> Seq<(Seq<char>, Option<Seq<char>>)> {
    labels.map_values(|p: (String, Option<String>)| (p.0@, opt_text(p.1)))
}

impl View for ImageConfigFields {
    type V = (Option<Seq<char>>, Option<Seq<char>>, Option<Seq<char>>, Option<Seq<(Seq<char>, Option<Seq<char>>)>>);

    /// The architecture, operating system, creation time and labels, as text.
    open spec fn view(&self) -> Self::V {
        (
            opt_text(self.architecture),
            opt_text(self.os),
            opt_text(self.created),
            match self.labels { Some(l) => Some(label_views(l@)), None => None },
        )
    }
}

/// The labels whose value is a string, in order, given by their views.
pub open spec fn text_labels(labels: Seq<(Seq<char>, Option<Seq<char>>)>) -> Seq<(Seq<char>, Seq<char>)>
    decreases labels.len(),
{
    if labels.len() == 0 {
        Seq::empty()
    } else {
        let r = text_labels(labels.drop_last());
        match labels.last().1 {
            Some(v) => r.push((labels.last().0, v)),
            None => r,
        }
    }
}

proof fn lemma_string_labels_view(labels: Seq<(String, Option<String>)>)
    ensures
        string_labels(labels) == text_labels(label_views(labels)),
    decreases labels.len(),
{
    if labels.len() > 0 {
        lemma_string_labels_view(labels.drop_last());
        assert(label_views(labels).drop_last() =~= label_views(labels.drop_last()));
    }
}

/// Whether the creation time an image config gives, if any, can be read
/// without leaving the range of `u32`.
pub open spec fn created_text_fits(created: Option<Seq<char>>) -> bool {
    match created {
        Some(c) => rfc3339_fits(c),
        None => true,
    }
}

/// Whether `info` is the metadata of the image `reference` with id `id` and
/// size `size` whose config gives `f` (architecture, operating system,
/// creation time and labels): the architecture (`amd64` when not given), the
/// operating system (`linux` when not given), the creation time (0 when not
/// given or not a date) and the labels with string values.
pub open spec fn info_matches_config(
    info: ImageInfo,
    reference: ImageReferenceView,
    id: Seq<char>,
    size: u64,
    f: (Option<Seq<char>>, Option<Seq<char>>, Option<Seq<char>>, Option<Seq<(Seq<char>, Option<Seq<char>>)>>),
) -> bool {
    &&& info.reference@ == reference
    &&& info.id@ == id
    &&& info.size == size
    &&& info.architecture@ == (match f.0 { Some(a) => a, None => "amd64"@ })
    &&& info.os@ == (match f.1 { Some(o) => o, None => "linux"@ })
    &&& info.created == (match f.2 {
        Some(c) => match rfc3339_timestamp_spec(c) { Some(t) => t, None => 0 },
        None => 0,
    })
    &&& labels_view(info.labels@) == (match f.3 { Some(l) => text_labels(l), None => Seq::empty() })
}

/// The metadata of a pulled image: the architecture (`amd64` when not given),
/// the operating system (`linux` when not given), the creation time (0 when
/// not given or not a date) and the labels with string values.
pub fn image_info_from_config(reference: ImageReference, id: String, size: u64, fields: &ImageConfigFields) -> (info: ImageInfo)
    requires
        config_created_fits(*fields),
    ensures
        info_matches_config(info, reference@, id@, size, fields@),
        info.reference@ == reference@,
        info.id@ == id@,
        info.size == size,
        info.architecture@ == (match fields.architecture { Some(a) => a@, None => "amd64"@ }),
        info.os@ == (match fields.os { Some(o) => o@, None => "linux"@ }),
        info.created == (match fields.created {
            Some(c) => match rfc3339_timestamp_spec(c@) { Some(t) => t, None => 0 },
            None => 0,
        }),
        labels_view(info.labels@) == (match fields.labels { Some(l) => string_labels(l@), None => Seq::empty() }),
{
    let architecture = string_or(&fields.architecture, "amd64");
    let os = string_or(&fields.os, "linux");
    let created = match &fields.created {
        Some(c) => match parse_rfc3339_timestamp(c.as_str()) {
            Some(t) => t,
            None => 0,
        },
        None => 0,
    };
    let mut labels: Vec<(String, String)> = Vec::new();
    match &fields.labels {
        Some(l) => {
            let mut i: usize = 0;
            proof {
                assert(l@.take(0) =~= Seq::<(String, Option<String>)>::empty());
                assert(labels_view(labels@) =~= string_labels(l@.take(0)));
            }
            while i < l.len()
                invariant
                    i <= l@.len(),
                    labels_view(labels@) == string_labels(l@.take(i as int)),
                decreases l@.len() - i,
            {
                proof {
                    assert(l@.take(i + 1).drop_last() =~= l@.take(i as int));
                    assert(l@.take(i + 1).last() == l@[i as int]);
                }
                let ghost prev = labels@;
                match &l[i].1 {
                    Some(v) => {
                        labels.push((l[i].0.clone(), v.clone()));
                        proof {
                            assert(labels_view(labels@) =~= labels_view(prev).push((l@[i as int].0@, v@)));
                        }
                    },
                    None => {},
                }
                i = i + 1;
            }
            proof {
                assert(l@.take(i as int) =~= l@);
            }
        },
        None => {
            proof {
                assert(labels_view(labels@) =~= Seq::<(Seq<char>, Seq<char>)>::empty());
            }
        },
    }
    proof {
        if fields.labels is Some {
            lemma_string_labels_view(fields.labels->0@);
        }
    }
    ImageInfo { reference, id, size, created, architecture, os, labels }
}

/// What the JSON text of an image config gives: its `architecture`, `os`
/// and `created` strings and its `config.Labels` object, each label with its
/// value when that is a string (each `None` when absent or of another JSON
/// type); or nothing when the text is not JSON.
pub uninterp spec fn image_config_json_fields(text: Seq<char>) -> Option<(Option<Seq<char>>, Option<Seq<char>>, Option<Seq<char>>, Option<Seq<(Seq<char>, Option<Seq<char>>)>>)>;

/// Calls `serde_json::from_str` into a `serde_json::Value` and reads the
/// fields a pull takes with `Value`'s indexing, `as_str` and `as_object`. The
/// contract claims that the outcome is a function of the text alone, named
/// `image_config_json_fields`: the fields read on success, nothing when
/// serde_json refuses the text.
#[verifier::external_body]
fn parse_image_config(text: &str) -> (r: Result<ImageConfigFields, serde_json::Error>)
    ensures
        r matches Ok(f) ==> image_config_json_fields(text@) == Some(f@),
        r is Err ==> image_config_json_fields(text@) is None,
{
    let v: serde_json::Value = serde_json::from_str(text)?;
    let s = |x: &serde_json::Value| x.as_str().map(|t| t.to_string());
    Ok(ImageConfigFields {
        architecture: s(&v["architecture"]),
        os: s(&v["os"]),
        created: s(&v["created"]),
        labels: v["config"]["Labels"].as_object().map(|o| o.iter().map(|(k, x)| (k.clone(), s(x))).collect()),
    })
}

/// The metadata of the image `reference` with id `id` and size `size` whose
/// config document holds `text`: a text that is not JSON gives the JSON
/// error; nothing is given when the config's creation time leaves the range
/// of `u32` (a time the image store cannot read).
pub fn image_info_from_config_text(reference: ImageReference, id: String, size: u64, text: &str) -> (r: Option<Result<ImageInfo, ShimError>>)
    ensures
        match image_config_json_fields(text@) {
            None => r matches Some(Err(e)) && e matches ShimError::Serialization { context: Some(c), .. }
                && c@ == "JSON parsing error"@,
            Some(f) => if created_text_fits(f.2) {
                r matches Some(Ok(info)) && info_matches_config(info, reference@, id@, size, f)
            } else {
                r is None
            },
        },
{
    let fields = match parse_image_config(text) {
        Ok(f) => f,
        Err(e) => return Some(Err(ShimError::from_json_error(&e))),
    };
    let fits = match &fields.created {
        Some(c) => rfc3339_timestamp_fits(c.as_str()),
        None => true,
    };
    if !fits {
        return None;
    }
    Some(Ok(image_info_from_config(reference, id, size, &fields)))
}

/// The reference a pull asks for, or a validation error of the field
/// `reference` with the message `Invalid image reference: <reference>`.
pub fn pull_reference(reference: &str) -> (r: Result<ImageReference, ShimError>)
    ensures
        match parse_reference_spec(reference@) {
            Some(v) => r matches Ok(x) && x@ == v,
            None => r matches Err(ShimError::Validation { field, message })
                && field@ == "reference"@ && message@ == "Invalid image reference: "@ + reference@,
        },
{
    match ImageReference::parse(reference) {
        Some(x) => Ok(x),
        None => {
            let mut m = String::from_str("Invalid image reference: ");
            m.append(reference);
            Err(ShimError::validation("reference", m.as_str()))
        },
    }
}

/// A report of how far a pull has come.
#[derive(Debug)]
pub struct PullProgress {
    pub current_layer: String,
    pub total_layers: u32,
    pub completed_layers: u32,
    pub downloaded_bytes: u64,
    pub total_bytes: u64,
    pub status: String,
}

/// The report at the start of a pull: `Pulling from <registry>`.
pub fn progress_started(registry: &str) -> (p: PullProgress)
    ensures
        p.status@ == "Pulling from "@ + registry@,
        p.current_layer@ == Seq::<char>::empty(),
        p.total_layers == 0 && p.completed_layers == 0 && p.downloaded_bytes == 0 && p.total_bytes == 0,
{
    let mut status = String::from_str("Pulling from ");
    status.append(registry);
    PullProgress {
        current_layer: String::new(),
        total_layers: 0,
        completed_layers: 0,
        downloaded_bytes: 0,
        total_bytes: 0,
        status,
    }
}

/// The report once the manifest is read: `Found <n> layers`.
pub fn progress_found(layers: usize, total_bytes: u64) -> (p: PullProgress)
    ensures
        p.status@ == "Found "@ + decimal(layers as nat) + " layers"@,
        p.current_layer@ == Seq::<char>::empty(),
        p.total_layers == layers as u32,
        p.completed_layers == 0 && p.downloaded_bytes == 0,
        p.total_bytes == total_bytes,
{
    let mut status = String::from_str("Found ");
    let n = u64_to_string(layers as u64);
    status.append(n.as_str());
    status.append(" layers");
    PullProgress {
        current_layer: String::new(),
        total_layers: layers as u32,
        completed_layers: 0,
        downloaded_bytes: 0,
        total_bytes,
        status,
    }
}

/// The report before downloading layer `index` of `layers`:
/// `Downloading layer <index + 1>/<layers>`.
pub fn progress_layer(digest: &str, index: usize, layers: usize, downloaded_bytes: u64, total_bytes: u64) -> (p: PullProgress)
    requires
        index < usize::MAX,
    ensures
        p.status@ == "Downloading layer "@ + decimal((index + 1) as nat) + "/"@ + decimal(layers as nat),
        p.current_layer@ == digest@,
        p.total_layers == layers as u32,
        p.completed_layers == index as u32,
        p.downloaded_bytes == downloaded_bytes,
        p.total_bytes == total_bytes,
{
    let mut status = String::from_str("Downloading layer ");
    let a = u64_to_string((index + 1) as u64);
    status.append(a.as_str());
    status.append("/");
    let b = u64_to_string(layers as u64);
    status.append(b.as_str());
    PullProgress {
        current_layer: String::from_str(digest),
        total_layers: layers as u32,
        completed_layers: index as u32,
        downloaded_bytes,
        total_bytes,
        status,
    }
}

/// The report while a layer streams in: `Downloading`, with the bytes of
/// earlier layers plus the bytes of this one so far.
pub fn progress_chunk(digest: &str, base_downloaded: u64, downloaded: u64, total_bytes: u64) -> (p: PullProgress)
    requires
        base_downloaded + downloaded <= u64::MAX,
    ensures
        p.status@ == "Downloading"@,
        p.current_layer@ == digest@,
        p.total_layers == 0 && p.completed_layers == 0,
        p.downloaded_bytes == base_downloaded + downloaded,
        p.total_bytes == total_bytes,
{
    PullProgress {
        current_layer: String::from_str(digest),
        total_layers: 0,
        completed_layers: 0,
        downloaded_bytes: base_downloaded + downloaded,
        total_bytes,
        status: String::from_str("Downloading"),
    }
}

/// A report with every layer done and the given status.
fn progress_all_done(layers: usize, total_bytes: u64, status: &str) -> (p: PullProgress)
    ensures
        p.status@ == status@,
        p.current_layer@ == Seq::<char>::empty(),
        p.total_layers == layers as u32 && p.completed_layers == layers as u32,
        p.downloaded_bytes == total_bytes && p.total_bytes == total_bytes,
{
    PullProgress {
        current_layer: String::new(),
        total_layers: layers as u32,
        completed_layers: layers as u32,
        downloaded_bytes: total_bytes,
        total_bytes,
        status: String::from_str(status),
    }
}

/// The report before the layers are unpacked: `Extracting layers`.
pub fn progress_extracting(layers: usize, total_bytes: u64) -> (p: PullProgress)
    ensures
        p.status@ == "Extracting layers"@,
        p.current_layer@ == Seq::<char>::empty(),
        p.total_layers == layers as u32 && p.completed_layers == layers as u32,
        p.downloaded_bytes == total_bytes && p.total_bytes == total_bytes,
{
    progress_all_done(layers, total_bytes, "Extracting layers")
}

/// The report at the end of a pull: `Pull complete`.
pub fn progress_complete(layers: usize, total_bytes: u64) -> (p: PullProgress)
    ensures
        p.status@ == "Pull complete"@,
        p.current_layer@ == Seq::<char>::empty(),
        p.total_layers == layers as u32 && p.completed_layers == layers as u32,
        p.downloaded_bytes == total_bytes && p.total_bytes == total_bytes,
{
    progress_all_done(layers, total_bytes, "Pull complete")
}


/// The stages of an image pull, each with its progress report: the start,
/// the manifest found, each layer in turn (its download reports chunks), the
/// extraction, and the end.
#[derive(Clone, Copy, Debug, PartialEq, Eq, Structural)]
pub enum PullStage {
    Started,
    Found,
    Layer(usize),
    Extracting,
    Complete,
}

/// The stage that comes once the layers before `i` are fetched: layer `i` if
/// there is one, else the extraction, which is left out when the image's root
/// filesystem is already unpacked.
pub open spec fn stage_from_layer(i: int, layers: nat, rootfs_exists: bool) -> PullStage {
    if i < layers {
        PullStage::Layer(i as usize)
    } else if !rootfs_exists {
        PullStage::Extracting
    } else {
        PullStage::Complete
    }
}

/// The stage after `stage` in a pull of `layers` layers, or none after the end.
pub open spec fn next_stage_spec(stage: PullStage, layers: nat, rootfs_exists: bool) -> Option<PullStage> {
    match stage {
        PullStage::Started => Some(PullStage::Found),
        PullStage::Found => Some(stage_from_layer(0, layers, rootfs_exists)),
        PullStage::Layer(i) => Some(stage_from_layer(i + 1, layers, rootfs_exists)),
        PullStage::Extracting => Some(PullStage::Complete),
        PullStage::Complete => None,
    }
}

/// The stage a pull of `layers` layers goes to after `stage`; `rootfs_exists`
/// says whether the image's root filesystem is already unpacked. The caller
/// does each stage's work (fetching the manifest, a layer, unpacking) and
/// reports it, then asks for the next stage, until there is none.
pub fn next_pull_stage(stage: PullStage, layers: usize, rootfs_exists: bool) -> (r: Option<PullStage>)
    ensures
        r == next_stage_spec(stage, layers as nat, rootfs_exists),
{
    let after_layers = if rootfs_exists { PullStage::Complete } else { PullStage::Extracting };
    match stage {
        PullStage::Started => Some(PullStage::Found),
        PullStage::Found => if 0 < layers { Some(PullStage::Layer(0)) } else { Some(after_layers) },
        PullStage::Layer(i) => if i < layers && i + 1 < layers {
            Some(PullStage::Layer(i + 1))
        } else {
            Some(after_layers)
        },
        PullStage::Extracting => Some(PullStage::Complete),
        PullStage::Complete => None,
    }
}

/// The stages of a pull of `layers` layers, in order.
pub open spec fn pull_stages(layers: nat, rootfs_exists: bool) -> Seq<PullStage> {
    seq![PullStage::Started, PullStage::Found]
        + Seq::new(layers, |i: int| PullStage::Layer(i as usize))
        + (if rootfs_exists { Seq::empty() } else { seq![PullStage::Extracting] })
        + seq![PullStage::Complete]
}

/// Law: a pull reports its stages in one order. Started from `Started` and
/// moved on by [`next_pull_stage`], a pull of `layers` layers goes through the
/// start, the manifest found, every layer from the first to the last, the
/// extraction unless the root filesystem is already unpacked, and the end,
/// after which there is no stage.
pub proof fn law_pull_stage_order(layers: usize, rootfs_exists: bool)
    ensures
        pull_stages(layers as nat, rootfs_exists)[0] == PullStage::Started,
        forall|k: int| 0 <= k < pull_stages(layers as nat, rootfs_exists).len() - 1 ==>
            next_stage_spec(#[trigger] pull_stages(layers as nat, rootfs_exists)[k], layers as nat, rootfs_exists)
                == Some(pull_stages(layers as nat, rootfs_exists)[k + 1]),
        next_stage_spec(pull_stages(layers as nat, rootfs_exists).last(), layers as nat, rootfs_exists) is None,
{
    let s = pull_stages(layers as nat, rootfs_exists);
    let n = layers as int;
    assert forall|k: int| 0 <= k < s.len() - 1 implies
        next_stage_spec(#[trigger] s[k], layers as nat, rootfs_exists) == Some(s[k + 1]) by {
        if k >= 2 && k < 2 + n {
            assert(s[k] == PullStage::Layer((k - 2) as usize));
            if k + 1 < 2 + n {
                assert(s[k + 1] == PullStage::Layer((k - 1) as usize));
            }
        }
    }
}


/// One layer to fetch in a pull: its digest and size, the file it is stored
/// in, and how many bytes the layers before it hold.
#[derive(Debug)]
pub struct LayerStep {
    pub digest: String,
    pub size: u64,
    pub file_name: String,
    pub downloaded_before: u64,
}

/// What a pull fetches once the manifest is read: the image's short id, its
/// config blob, its layers in order, and their total size.
#[derive(Debug)]
pub struct PullPlan {
    pub image_id: String,
    pub config_digest: String,
    pub layers: Vec<LayerStep>,
    pub total_size: u64,
}

/// Whether a config digest and layer digests are long enough to name the
/// image and the layer files.
pub open spec fn pull_plan_fits(config_digest: Seq<char>, layers: Seq<(Seq<char>, u64)>) -> bool {
    digest_long_enough(config_digest) && forall|i: int|
        0 <= i < layers.len() ==> remove_all(#[trigger] layers[i].0, "sha256:"@).len() >= 12
}

/// Whether `plan` is the plan for a manifest with the given config digest and
/// layers.
pub open spec fn plan_matches(plan: PullPlan, config_digest: Seq<char>, layers: Seq<(Seq<char>, u64)>) -> bool {
    &&& plan.image_id@ == short_image_id_spec(config_digest)
    &&& plan.config_digest@ == config_digest
    &&& plan.total_size == total_size(layers)
    &&& plan.layers@.len() == layers.len()
    &&& forall|i: int|
        0 <= i < layers.len() ==> {
            let step = #[trigger] plan.layers@[i];
            &&& step.digest@ == layers[i].0
            &&& step.size == layers[i].1
            &&& step.file_name@ == layer_file_name_spec(layers[i].0)
            &&& step.downloaded_before == total_size(layers.take(i))
        }
}

/// The plan of a pull, from the config digest and layers that
/// `parse_manifest` read; `None` where a digest is too short to name the
/// image or a layer file.
pub fn plan_pull(config_digest: &str, layers: &Vec<(String, u64)>) -> (r: Option<PullPlan>)
    requires
        total_size(layers@.map_values(|p: (String, u64)| (p.0@, p.1))) <= u64::MAX,
    ensures
        match r {
            Some(plan) => pull_plan_fits(config_digest@, layers@.map_values(|p: (String, u64)| (p.0@, p.1)))
                && plan_matches(plan, config_digest@, layers@.map_values(|p: (String, u64)| (p.0@, p.1))),
            None => !pull_plan_fits(config_digest@, layers@.map_values(|p: (String, u64)| (p.0@, p.1))),
        },
{
    let ghost ls = layers@.map_values(|p: (String, u64)| (p.0@, p.1));
    let n = config_digest.unicode_len();
    let long_enough = if starts_with(config_digest, "sha256:") { n >= 19 } else { n >= 12 };
    if !long_enough {
        return None;
    }
    let image_id = short_image_id(config_digest);
    let mut steps: Vec<LayerStep> = Vec::new();
    let mut before: u64 = 0;
    let mut i: usize = 0;
    proof {
        assert(ls.take(0) =~= Seq::<(Seq<char>, u64)>::empty());
    }
    while i < layers.len()
        invariant
            i <= layers@.len(),
            ls == layers@.map_values(|p: (String, u64)| (p.0@, p.1)),
            total_size(ls) <= u64::MAX,
            before == total_size(ls.take(i as int)),
            steps@.len() == i,
            forall|j: int| 0 <= j < i ==> remove_all(#[trigger] ls[j].0, "sha256:"@).len() >= 12,
            forall|j: int|
                0 <= j < i ==> {
                    let step = #[trigger] steps@[j];
                    &&& step.digest@ == ls[j].0
                    &&& step.size == ls[j].1
                    &&& step.file_name@ == layer_file_name_spec(ls[j].0)
                    &&& step.downloaded_before == total_size(ls.take(j))
                },
        decreases layers@.len() - i,
    {
        let digest = layers[i].0.as_str();
        let size = layers[i].1;
        proof {
            assert(ls[i as int] == (digest@, size));
        }
        let stripped = strip_sha256(digest);
        if stripped.unicode_len() < 12 {
            proof {
                assert(!(remove_all(ls[i as int].0, "sha256:"@).len() >= 12));
            }
            return None;
        }
        let file_name = layer_file_name(digest);
        proof {
            assert(ls.take(i + 1).drop_last() =~= ls.take(i as int));
            assert(ls.take(i + 1).last() == ls[i as int]);
            lemma_total_size_prefix(ls, i + 1);
        }
        steps.push(LayerStep { digest: String::from_str(digest), size, file_name, downloaded_before: before });
        before = before + size;
        i = i + 1;
    }
    proof {
        assert(ls.take(i as int) =~= ls);
    }
    Some(PullPlan { image_id, config_digest: String::from_str(config_digest), layers: steps, total_size: before })
}

/// The mathematical value of an [`ImageInfo`].
pub struct ImageInfoView {
    pub reference: ImageReferenceView,
    pub id: Seq<char>,
    pub size: u64,
    pub created: u64,
    pub architecture: Seq<char>,
    pub os: Seq<char>,
    pub labels: Seq<(Seq<char>, Seq<char>)>,
}

impl View for ImageInfo {
    type V = ImageInfoView;

    open spec fn view(&self) -> ImageInfoView {
        ImageInfoView {
            reference: self.reference@,
            id: self.id@,
            size: self.size,
            created: self.created,
            architecture: self.architecture@,
            os: self.os@,
            labels: labels_view(self.labels@),
        }
    }
}

impl ImageReference {
    /// A copy of this reference.
    pub fn duplicate(&self) -> (r: ImageReference)
        ensures
            r@ == self@,
    {
        ImageReference {
            registry: self.registry.clone(),
            repository: self.repository.clone(),
            reference: self.reference.clone(),
        }
    }
}

impl ImageInfo {
    /// A copy of this image's metadata.
    pub fn duplicate(&self) -> (r: ImageInfo)
        ensures
            r@ == self@,
    {
        let mut labels: Vec<(String, String)> = Vec::new();
        let mut i: usize = 0;
        while i < self.labels.len()
            invariant
                i <= self.labels@.len(),
                labels_view(labels@) == labels_view(self.labels@).take(i as int),
            decreases self.labels@.len() - i,
        {
            let ghost prev = labels@;
            labels.push((self.labels[i].0.clone(), self.labels[i].1.clone()));
            proof {
                assert(labels_view(labels@) =~= labels_view(prev).push((self.labels@[i as int].0@, self.labels@[i as int].1@)));
                assert(labels_view(self.labels@).take(i + 1) =~= labels_view(self.labels@).take(i as int).push(
                    (self.labels@[i as int].0@, self.labels@[i as int].1@),
                ));
            }
            i = i + 1;
        }
        proof {
            assert(labels_view(self.labels@).take(i as int) =~= labels_view(self.labels@));
        }
        ImageInfo {
            reference: self.reference.duplicate(),
            id: self.id.clone(),
            size: self.size,
            created: self.created,
            architecture: self.architecture.clone(),
            os: self.os.clone(),
            labels,
        }
    }
}

/// The images of a store, each under its own id.
#[derive(Debug)]
pub struct ImageCatalog {
    images: Vec<ImageInfo>,
}

/// Whether no two images of `s` share an id.
pub open spec fn ids_unique(s: Seq<ImageInfoView>) -> bool {
    forall|i: int, j: int| 0 <= i < s.len() && 0 <= j < s.len() && i != j ==> #[trigger] s[i].id != #[trigger] s[j].id
}

/// Whether `s` holds an image with id `id`.
pub open spec fn has_image(s: Seq<ImageInfoView>, id: Seq<char>) -> bool {
    exists|i: int| 0 <= i < s.len() && #[trigger] s[i].id == id
}

/// The position of the image with id `id` in `s` (meaningful when `s` holds
/// one).
pub open spec fn image_index(s: Seq<ImageInfoView>, id: Seq<char>) -> int {
    choose|i: int| 0 <= i < s.len() && #[trigger] s[i].id == id
}

/// The images after adding `info`: an image with the same id is replaced in
/// place, otherwise `info` comes last.
pub open spec fn catalog_insert(s: Seq<ImageInfoView>, info: ImageInfoView) -> Seq<ImageInfoView> {
    if has_image(s, info.id) {
        s.update(image_index(s, info.id), info)
    } else {
        s.push(info)
    }
}

/// The images after removing the one with id `id`, if any.
pub open spec fn catalog_remove(s: Seq<ImageInfoView>, id: Seq<char>) -> Seq<ImageInfoView> {
    if has_image(s, id) {
        s.remove(image_index(s, id))
    } else {
        s
    }
}

/// With unique ids, the image at a position with id `id` is at `image_index`.
pub proof fn lemma_image_index_unique(s: Seq<ImageInfoView>, id: Seq<char>, i: int)
    requires
        ids_unique(s),
        0 <= i < s.len(),
        s[i].id == id,
    ensures
        has_image(s, id),
        image_index(s, id) == i,
{
    assert(has_image(s, id));
    let k = image_index(s, id);
    if k != i {
        assert(s[k].id != s[i].id);
    }
}

/// Adding an image keeps the ids unique, and looking up its id afterwards
/// finds exactly that image; every image with another id stays.
pub proof fn law_catalog_insert_then_get(s: Seq<ImageInfoView>, info: ImageInfoView, other: Seq<char>)
    requires
        ids_unique(s),
        other != info.id,
    ensures
        ids_unique(catalog_insert(s, info)),
        has_image(catalog_insert(s, info), info.id),
        catalog_insert(s, info)[image_index(catalog_insert(s, info), info.id)] == info,
        has_image(catalog_insert(s, info), other) == has_image(s, other),
        has_image(s, other) ==> catalog_insert(s, info)[image_index(catalog_insert(s, info), other)] == s[image_index(s, other)],
{
    let t = catalog_insert(s, info);
    let k: int = if has_image(s, info.id) { image_index(s, info.id) } else { s.len() as int };
    assert(ids_unique(t)) by {
        assert forall|a: int, b: int| 0 <= a < t.len() && 0 <= b < t.len() && a != b implies #[trigger] t[a].id != #[trigger] t[b].id by {
            if a != k && b != k {
                assert(t[a] == s[a] && t[b] == s[b]);
            } else if a == k {
                assert(t[b] == s[b]);
                if s[b].id == info.id {
                    lemma_image_index_unique(s, info.id, b);
                }
            } else {
                assert(t[a] == s[a]);
                if s[a].id == info.id {
                    lemma_image_index_unique(s, info.id, a);
                }
            }
        }
    }
    assert(t[k] == info);
    lemma_image_index_unique(t, info.id, k);
    if has_image(s, other) {
        let j = image_index(s, other);
        assert(s[j].id == other);
        assert(j != k);
        assert(t[j] == s[j]);
        lemma_image_index_unique(t, other, j);
    } else {
        if has_image(t, other) {
            let j = image_index(t, other);
            assert(t[j].id == other);
            assert(j != k);
            assert(s[j] == t[j]);
        }
    }
}

/// Removing an image leaves no image with its id, keeps the ids unique, and
/// keeps every image with another id.
pub proof fn law_catalog_remove_then_absent(s: Seq<ImageInfoView>, id: Seq<char>, other: Seq<char>)
    requires
        ids_unique(s),
        other != id,
    ensures
        ids_unique(catalog_remove(s, id)),
        !has_image(catalog_remove(s, id), id),
        has_image(catalog_remove(s, id), other) == has_image(s, other),
        has_image(s, other) ==> catalog_remove(s, id)[image_index(catalog_remove(s, id), other)] == s[image_index(s, other)],
{
    let t = catalog_remove(s, id);
    if has_image(s, id) {
        let k = image_index(s, id);
        assert(s[k].id == id);
        assert(ids_unique(t)) by {
            assert forall|a: int, b: int| 0 <= a < t.len() && 0 <= b < t.len() && a != b implies #[trigger] t[a].id != #[trigger] t[b].id by {
                let a2 = if a < k { a } else { a + 1 };
                let b2 = if b < k { b } else { b + 1 };
                assert(t[a] == s[a2] && t[b] == s[b2]);
            }
        }
        if has_image(t, id) {
            let j = image_index(t, id);
            let j2 = if j < k { j } else { j + 1 };
            assert(t[j] == s[j2]);
            assert(s[j2].id != s[k].id);
        }
        if has_image(s, other) {
            let j = image_index(s, other);
            assert(s[j].id == other);
            let jt = if j < k { j } else { j - 1 };
            assert(t[jt] == s[j]);
            lemma_image_index_unique(t, other, jt);
        } else if has_image(t, other) {
            let j = image_index(t, other);
            let j2 = if j < k { j } else { j + 1 };
            assert(t[j] == s[j2]);
        }
    } else {
        if has_image(s, other) {
            let j = image_index(s, other);
            assert(s[j].id == other);
            lemma_image_index_unique(t, other, j);
        }
    }
}

impl View for ImageCatalog {
    type V = Seq<ImageInfoView>;

    closed spec fn view(&self) -> Seq<ImageInfoView> {
        self.images@.map_values(|i: ImageInfo| i@)
    }
}

impl ImageCatalog {
    /// Whether the catalog is well formed: no two images share an id.
    pub open spec fn wf(&self) -> bool {
        ids_unique(self@)
    }

    /// An empty catalog.
    pub fn new() -> (c: ImageCatalog)
        ensures
            c.wf(),
            c@ == Seq::<ImageInfoView>::empty(),
    {
        let c = ImageCatalog { images: Vec::new() };
        assert(c@ =~= Seq::<ImageInfoView>::empty());
        c
    }

    /// The number of images.
    pub fn len(&self) -> (n: usize)
        ensures
            n == self@.len(),
    {
        self.images.len()
    }

    /// Where the image with id `id` stands.
    fn position(&self, id: &str) -> (r: Option<usize>)
        ensures
            match r {
                Some(i) => i < self@.len() && self@[i as int].id == id@,
                None => !has_image(self@, id@),
            },
    {
        let mut i: usize = 0;
        while i < self.images.len()
            invariant
                i <= self.images@.len(),
                forall|j: int| 0 <= j < i ==> #[trigger] self@[j].id != id@,
            decreases self.images@.len() - i,
        {
            if str_eq(self.images[i].id.as_str(), id) {
                return Some(i);
            }
            i = i + 1;
        }
        None
    }

    /// The image with id `id`, if the catalog holds one.
    pub fn get(&self, id: &str) -> (r: Option<&ImageInfo>)
        requires
            self.wf(),
        ensures
            match r {
                Some(info) => has_image(self@, id@) && info@ == self@[image_index(self@, id@)],
                None => !has_image(self@, id@),
            },
    {
        match self.position(id) {
            Some(i) => {
                let info = &self.images[i];
                proof {
                    assert(self@[i as int] == info@);
                    lemma_image_index_unique(self@, id@, i as int);
                }
                Some(info)
            },
            None => None,
        }
    }

    /// Adds an image; one already held under the same id is replaced in
    /// place.
    pub fn insert(&mut self, info: ImageInfo)
        requires
            old(self).wf(),
        ensures
            final(self).wf(),
            final(self)@ == catalog_insert(old(self)@, info@),
    {
        let ghost before = self@;
        let ghost new_view = info@;
        match self.position(info.id.as_str()) {
            Some(i) => {
                proof {
                    lemma_image_index_unique(before, new_view.id, i as int);
                }
                self.images.set(i, info);
                proof {
                    assert(self@ =~= before.update(i as int, new_view));
                    assert(ids_unique(self@)) by {
                        assert forall|a: int, b: int|
                            0 <= a < self@.len() && 0 <= b < self@.len() && a != b implies #[trigger] self@[a].id
                            != #[trigger] self@[b].id by {
                            if a != i && b != i {
                                assert(before[a].id != before[b].id);
                            } else if a == i {
                                assert(before[i as int].id != before[b].id);
                            } else {
                                assert(before[i as int].id != before[a].id);
                            }
                        }
                    }
                }
            },
            None => {
                self.images.push(info);
                proof {
                    assert(self@ =~= before.push(new_view));
                    assert(ids_unique(self@)) by {
                        assert forall|a: int, b: int|
                            0 <= a < self@.len() && 0 <= b < self@.len() && a != b implies #[trigger] self@[a].id
                            != #[trigger] self@[b].id by {
                            if a < before.len() && b < before.len() {
                                assert(before[a].id != before[b].id);
                            } else if a < before.len() {
                                assert(before[a].id != new_view.id);
                            } else {
                                assert(before[b].id != new_view.id);
                            }
                        }
                    }
                }
            },
        }
    }

    /// Removes the image with id `id`, if the catalog holds one, and gives it
    /// back.
    pub fn remove(&mut self, id: &str) -> (r: Option<ImageInfo>)
        requires
            old(self).wf(),
        ensures
            final(self).wf(),
            final(self)@ == catalog_remove(old(self)@, id@),
            match r {
                Some(info) => has_image(old(self)@, id@) && info@ == old(self)@[image_index(old(self)@, id@)],
                None => !has_image(old(self)@, id@),
            },
    {
        let ghost before = self@;
        match self.position(id) {
            Some(i) => {
                proof {
                    lemma_image_index_unique(before, id@, i as int);
                }
                let info = self.images.remove(i);
                proof {
                    assert(self@ =~= before.remove(i as int));
                    assert(before[i as int] == info@);
                    assert(ids_unique(self@)) by {
                        assert forall|a: int, b: int|
                            0 <= a < self@.len() && 0 <= b < self@.len() && a != b implies #[trigger] self@[a].id
                            != #[trigger] self@[b].id by {
                            let a2 = if a < i { a } else { a + 1 };
                            let b2 = if b < i { b } else { b + 1 };
                            assert(self@[a] == before[a2]);
                            assert(self@[b] == before[b2]);
                            assert(before[a2].id != before[b2].id);
                        }
                    }
                }
                Some(info)
            },
            None => None,
        }
    }

    /// Copies of all images, in the catalog's order.
    pub fn list(&self) -> (r: Vec<ImageInfo>)
        ensures
            r@.map_values(|i: ImageInfo| i@) == self@,
    {
        let mut r: Vec<ImageInfo> = Vec::new();
        let mut i: usize = 0;
        while i < self.images.len()
            invariant
                i <= self.images@.len(),
                r@.map_values(|x: ImageInfo| x@) == self@.take(i as int),
            decreases self.images@.len() - i,
        {
            let ghost prev = r@;
            r.push(self.images[i].duplicate());
            proof {
                assert(r@.map_values(|x: ImageInfo| x@) =~= prev.map_values(|x: ImageInfo| x@).push(self.images@[i as int]@));
                assert(self@.take(i + 1) =~= self@.take(i as int).push(self@[i as int]));
            }
            i = i + 1;
        }
        proof {
            assert(self@.take(i as int) =~= self@);
        }
        r
    }
}

} // verus!
