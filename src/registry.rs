//! What the registry client computes around its requests: addresses, the choice of a
//! platform manifest, and the exposed ports of an image configuration.
use vstd::prelude::*;
use vstd::string::*;
use crate::text::{chars_of, find_char, first_index, is_digit, is_digit_char, push_str, str_eq};
use crate::ranking::digit_value;

verus! {

#[derive(Debug, Clone)]
pub struct ManifestPlatform {
    pub architecture: Option<String>,
    pub os: Option<String>,
}

#[derive(Debug, Clone)]
pub struct ManifestDescriptor {
    pub digest: String,
    pub platform: Option<ManifestPlatform>,
}

#[derive(Debug, Clone)]
pub struct ManifestConfig {
    pub digest: String,
}

/// A fetched manifest: an image manifest names its configuration blob, a multi-platform
/// index lists per-platform manifests.
#[derive(Debug, Clone)]
pub struct ManifestEnvelope {
    pub config: Option<ManifestConfig>,
    pub manifests: Option<Vec<ManifestDescriptor>>,
}

/// The next request when looking for an image's configuration.
#[derive(Debug, Clone)]
pub enum ManifestStep {
    /// Fetch the configuration blob with this digest.
    FetchConfig(String),
    /// Fetch the platform manifest with this digest and look again.
    FetchPlatform(String),
    /// Nothing to fetch: the image declares no ports.
    NoConfig,
}

pub open spec fn registry_base() -> Seq<char> {
    "https://registry-1.docker.io/v2/"@
}

pub open spec fn image_path(namespace: Seq<char>, repo: Seq<char>) -> Seq<char> {
    namespace + "/"@ + repo
}

pub fn token_url(namespace: &str, repo: &str) -> (r: String)
    ensures
        r@ == "https://auth.docker.io/token?service=registry.docker.io&scope=repository:"@
            + image_path(namespace@, repo@) + ":pull"@,
{
    let mut r = String::from_str("https://auth.docker.io/token?service=registry.docker.io&scope=repository:");
    push_str(&mut r, namespace);
    push_str(&mut r, "/");
    push_str(&mut r, repo);
    push_str(&mut r, ":pull");
    r
}

pub fn tags_url(namespace: &str, repo: &str) -> (r: String)
    ensures
        r@ == registry_base() + image_path(namespace@, repo@) + "/tags/list"@,
{
    let mut r = String::from_str("https://registry-1.docker.io/v2/");
    push_str(&mut r, namespace);
    push_str(&mut r, "/");
    push_str(&mut r, repo);
    push_str(&mut r, "/tags/list");
    r
}

pub fn manifest_url(namespace: &str, repo: &str, reference: &str) -> (r: String)
    ensures
        r@ == registry_base() + image_path(namespace@, repo@) + "/manifests/"@ + reference@,
{
    let mut r = String::from_str("https://registry-1.docker.io/v2/");
    push_str(&mut r, namespace);
    push_str(&mut r, "/");
    push_str(&mut r, repo);
    push_str(&mut r, "/manifests/");
    push_str(&mut r, reference);
    r
}

pub fn blob_url(namespace: &str, repo: &str, digest: &str) -> (r: String)
    ensures
        r@ == registry_base() + image_path(namespace@, repo@) + "/blobs/"@ + digest@,
{
    let mut r = String::from_str("https://registry-1.docker.io/v2/");
    push_str(&mut r, namespace);
    push_str(&mut r, "/");
    push_str(&mut r, repo);
    push_str(&mut r, "/blobs/");
    push_str(&mut r, digest);
    r
}

/// The media types a manifest request accepts, most preferred first.
pub fn manifest_accept() -> (r: &'static str)
    ensures
        r@ == "application/vnd.oci.image.index.v1+json,application/vnd.docker.distribution.manifest.list.v2+json,application/vnd.oci.image.manifest.v1+json,application/vnd.docker.distribution.manifest.v2+json"@,
{
    "application/vnd.oci.image.index.v1+json,application/vnd.docker.distribution.manifest.list.v2+json,application/vnd.oci.image.manifest.v1+json,application/vnd.docker.distribution.manifest.v2+json"
}

/// Spaces written as `%20`.
pub open spec fn encode_spaces(s: Seq<char>) -> Seq<char>
    decreases s.len(),
{
    if s.len() == 0 {
        s
    } else {
        encode_spaces(s.drop_last()) + if s.last() == ' ' {
            "%20"@
        } else {
            seq![s.last()]
        }
    }
}

pub fn search_url(term: &str) -> (r: String)
    ensures
        r@ == "https://hub.docker.com/v2/search/repositories/?query="@ + encode_spaces(term@)
            + "&page_size=25"@,
{
    let mut r = String::from_str("https://hub.docker.com/v2/search/repositories/?query=");
    let ghost start = r@;
    let chars = chars_of(term);
    let mut i: usize = 0;
    while i < chars.len()
        invariant
            i <= chars.len(),
            chars@ == term@,
            r@ == start + encode_spaces(chars@.take(i as int)),
        decreases chars.len() - i,
    {
        let ghost before = r@;
        if chars[i] == ' ' {
            push_str(&mut r, "%20");
        } else {
            r.push(chars[i]);
            assert(r@ == before + seq![chars@[i as int]]);
        }
        proof {
            let t = chars@.take(i + 1);
            assert(t.drop_last() == chars@.take(i as int));
            assert(t.last() == chars@[i as int]);
        }
        i = i + 1;
    }
    assert(chars@.take(chars.len() as int) == chars@);
    push_str(&mut r, "&page_size=25");
    r
}

pub open spec fn is_linux_amd64(d: ManifestDescriptor) -> bool {
    match d.platform {
        Some(p) => match (p.os, p.architecture) {
            (Some(os), Some(arch)) => os@ == "linux"@ && arch@ == "amd64"@,
            _ => false,
        },
        None => false,
    }
}

/// The digest of the platform manifest to follow, if an index is followed and lists any.
pub open spec fn platform_choice(manifests: Option<Vec<ManifestDescriptor>>, follow_index: bool) -> Option<Seq<char>> {
    match manifests {
        Some(m) => if follow_index && preferred_index(m@) is Some {
            Some(m@[preferred_index(m@)->0].digest@)
        } else {
            None
        },
        None => None,
    }
}

/// The manifest to follow in an index: the first `linux/amd64` entry, else the first entry.
pub open spec fn preferred_index(manifests: Seq<ManifestDescriptor>) -> Option<int> {
    if exists|i: int| 0 <= i < manifests.len() && is_linux_amd64(#[trigger] manifests[i]) {
        Some(
            choose|i: int|
                0 <= i < manifests.len() && is_linux_amd64(#[trigger] manifests[i]) && forall|j: int|
                    0 <= j < i ==> !is_linux_amd64(#[trigger] manifests[j]),
        )
    } else if manifests.len() > 0 {
        Some(0)
    } else {
        None
    }
}

fn is_linux_amd64_exec(d: &ManifestDescriptor) -> (r: bool)
    ensures
        r == is_linux_amd64(*d),
{
    match &d.platform {
        Some(p) => match (&p.os, &p.architecture) {
            (Some(os), Some(arch)) => str_eq(os.as_str(), "linux") && str_eq(arch.as_str(), "amd64"),
            _ => false,
        },
        None => false,
    }
}

/// Index of the manifest to follow (see `preferred_index`).
pub fn preferred_index_manifest(manifests: &[ManifestDescriptor]) -> (r: Option<usize>)
    ensures
        r matches Some(i) ==> preferred_index(manifests@) == Some(i as int) && i < manifests.len(),
        r is None ==> preferred_index(manifests@) is None,
{
    let mut i: usize = 0;
    while i < manifests.len()
        invariant
            i <= manifests.len(),
            forall|j: int| 0 <= j < i ==> !is_linux_amd64(#[trigger] manifests@[j]),
        decreases manifests.len() - i,
    {
        if is_linux_amd64_exec(&manifests[i]) {
            proof {
                let k = choose|k: int|
                    0 <= k < manifests@.len() && is_linux_amd64(#[trigger] manifests@[k]) && forall|j: int|
                        0 <= j < k ==> !is_linux_amd64(#[trigger] manifests@[j]);
                assert(0 <= i < manifests@.len() && is_linux_amd64(manifests@[i as int]));
                if k < i {
                    assert(!is_linux_amd64(manifests@[k]));
                } else if k > i {
                    assert(!is_linux_amd64(manifests@[i as int]));
                }
            }
            return Some(i);
        }
        i = i + 1;
    }
    if manifests.len() > 0 {
        Some(0)
    } else {
        None
    }
}

/// What to fetch next for a manifest; an index is followed only when `follow_index` holds.
pub fn manifest_step(manifest: &ManifestEnvelope, follow_index: bool) -> (r: ManifestStep)
    ensures
        manifest.config is Some ==> (r matches ManifestStep::FetchConfig(d) && d@
            == manifest.config->0.digest@),
        manifest.config is None && platform_choice(manifest.manifests, follow_index) is Some ==> (
        r matches ManifestStep::FetchPlatform(d) && d@ == platform_choice(
            manifest.manifests,
            follow_index,
        )->0),
        manifest.config is None && platform_choice(manifest.manifests, follow_index) is None
            ==> r is NoConfig,
{
    match &manifest.config {
        Some(config) => ManifestStep::FetchConfig(config.digest.clone()),
        None => {
            if !follow_index {
                return ManifestStep::NoConfig;
            }
            match &manifest.manifests {
                Some(m) => match preferred_index_manifest(m.as_slice()) {
                    Some(i) => ManifestStep::FetchPlatform(m[i].digest.clone()),
                    None => ManifestStep::NoConfig,
                },
                None => ManifestStep::NoConfig,
            }
        },
    }
}

pub open spec fn all_digits(s: Seq<char>) -> bool {
    forall|i: int| 0 <= i < s.len() ==> is_digit(#[trigger] s[i])
}

/// The number that a string of decimal digits denotes.
pub open spec fn digits_value(s: Seq<char>) -> nat
    decreases s.len(),
{
    if s.len() == 0 {
        0
    } else {
        digits_value(s.drop_last()) * 10 + digit_value(s.last())
    }
}

/// The text before the first `/`, or all of it.
pub open spec fn before_slash(s: Seq<char>) -> Seq<char> {
    match first_index(s, '/') {
        Some(k) => s.take(k),
        None => s,
    }
}

/// How `u16::from_str` reads a string: an optional `+` followed by one or more digits, at most 65535.
pub open spec fn u16_of(s: Seq<char>) -> Option<u16> {
    let d = if s.len() > 0 && s[0] == '+' {
        s.drop_first()
    } else {
        s
    };
    if d.len() > 0 && all_digits(d) && digits_value(d) <= 65535 {
        Some(digits_value(d) as u16)
    } else {
        None
    }
}

/// The port of an exposed-port key such as `80/tcp`.
pub open spec fn port_of_key(key: Seq<char>) -> Option<u16> {
    u16_of(before_slash(key))
}

/// The port of an exposed-port key (see `port_of_key`).
pub fn parse_port_number(exposed_port_key: &str) -> (r: Option<u16>)
    ensures
        r == port_of_key(exposed_port_key@),
{
    let chars = chars_of(exposed_port_key);
    let end = match find_char(&chars, '/') {
        Some(k) => k,
        None => chars.len(),
    };
    let ghost prefix = chars@.take(end as int);
    assert(prefix == before_slash(exposed_port_key@)) by {
        if first_index(chars@, '/') is None {
            assert(chars@.take(chars.len() as int) == chars@);
        }
    }
    let mut i: usize = 0;
    if end > 0 && chars[0] == '+' {
        i = 1;
    }
    let start = i;
    let ghost d = prefix.skip(start as int);
    assert(d == if prefix.len() > 0 && prefix[0] == '+' { prefix.drop_first() } else { prefix });
    if start == end {
        return None;
    }
    let mut value: u32 = 0;
    while i < end
        invariant
            start <= i <= end <= chars.len(),
            prefix == chars@.take(end as int),
            d == prefix.skip(start as int),
            d == if prefix.len() > 0 && prefix[0] == '+' { prefix.drop_first() } else { prefix },
            prefix == before_slash(exposed_port_key@),
            d.len() > 0,
            all_digits(d.take(i - start)),
            value as nat == digits_value(d.take(i - start)),
            value <= 65535,
        decreases end - i,
    {
        let c = chars[i];
        assert(d[i - start] == c);
        if !is_digit_char(c) {
            proof {
                lemma_u16_of_non_digit(prefix, d, i - start);
            }
            return None;
        }
        let next: u32 = value * 10 + ((c as u32) - ('0' as u32));
        proof {
            let t = d.take(i - start + 1);
            assert(t.drop_last() == d.take(i - start));
            assert(t.last() == c);
            assert forall|k: int| 0 <= k < t.len() implies is_digit(#[trigger] t[k]) by {
                if k < t.len() - 1 {
                    assert(t[k] == d.take(i - start)[k]);
                }
            }
        }
        if next > 65535 {
            proof {
                let t = d.take(i - start + 1);
                assert(digits_value(t) == digits_value(d.take(i - start)) * 10 + digit_value(c));
                assert(digits_value(t) == next);
                lemma_digits_value_grows(d, i - start + 1);
                assert(u16_of(prefix) is None);
            }
            return None;
        }
        value = next;
        i = i + 1;
    }
    assert(d.take(end - start) == d);
    Some(value as u16)
}

proof fn lemma_u16_of_non_digit(s: Seq<char>, d: Seq<char>, k: int)
    requires
        d == if s.len() > 0 && s[0] == '+' { s.drop_first() } else { s },
        0 <= k < d.len(),
        !is_digit(d[k]),
    ensures
        u16_of(s) is None,
{
    assert(!all_digits(d));
}

proof fn lemma_digits_value_grows(d: Seq<char>, n: int)
    requires
        0 <= n <= d.len(),
    ensures
        digits_value(d) >= digits_value(d.take(n)),
    decreases d.len() - n,
{
    if n < d.len() {
        lemma_digits_value_grows(d, n + 1);
        let t = d.take(n + 1);
        assert(t.drop_last() == d.take(n));
        assert(digits_value(t) >= digits_value(d.take(n))) by (nonlinear_arith)
            requires
                digits_value(t) == digits_value(d.take(n)) * 10 + digit_value(t.last()),
        ;
    } else {
        assert(d.take(n) == d);
    }
}

pub open spec fn strictly_increasing(s: Seq<u16>) -> bool {
    forall|i: int, j: int| 0 <= i < j < s.len() ==> s[i] < s[j]
}

/// The ports named by `keys`: every key that reads as a port, ascending, each once.
pub fn exposed_ports_from_keys(keys: &[String]) -> (r: Vec<u16>)
    ensures
        strictly_increasing(r@),
        forall|p: u16| r@.contains(p) <==> exists|k: int| 0 <= k < keys.len() && port_of_key(#[trigger] keys@[k]@) == Some(p),
{
    let mut r: Vec<u16> = Vec::new();
    let mut i: usize = 0;
    while i < keys.len()
        invariant
            i <= keys.len(),
            strictly_increasing(r@),
            forall|p: u16| r@.contains(p) <==> exists|k: int| 0 <= k < i && port_of_key(#[trigger] keys@[k]@) == Some(p),
        decreases keys.len() - i,
    {
        let parsed = parse_port_number(keys[i].as_str());
        let ghost prev = r@;
        match parsed {
            Some(port) => {
                let mut p: usize = 0;
                while p < r.len() && r[p] < port
                    invariant
                        p <= r.len(),
                        r@ == prev,
                        forall|j: int| 0 <= j < p ==> r@[j] < port,
                    decreases r.len() - p,
                {
                    p = p + 1;
                }
                if p == r.len() || r[p] != port {
                    r.insert(p, port);
                    assert(strictly_increasing(r@)) by {
                        assert forall|a: int, b: int| 0 <= a < b < r@.len() implies r@[a] < r@[b] by {
                            if b < p {
                            } else if b == p {
                            } else if a < p {
                                assert(r@[b] == prev[b - 1]);
                            } else if a == p {
                                assert(r@[b] == prev[b - 1]);
                                assert(prev[p as int] > port);
                                if b - 1 > p {
                                    assert(prev[p as int] < prev[b - 1]);
                                }
                            } else {
                                assert(r@[a] == prev[a - 1] && r@[b] == prev[b - 1]);
                            }
                        }
                    }
                    assert forall|q: u16| r@.contains(q) <==> (prev.contains(q) || q == port) by {
                        if prev.contains(q) {
                            let j = choose|j: int| 0 <= j < prev.len() && prev[j] == q;
                            if j < p {
                                assert(r@[j] == q);
                            } else {
                                assert(r@[j + 1] == q);
                            }
                        }
                        if r@.contains(q) {
                            let j = choose|j: int| 0 <= j < r@.len() && r@[j] == q;
                            if j < p {
                                assert(prev[j] == q);
                            } else if j > p {
                                assert(prev[j - 1] == q);
                            }
                        }
                        if q == port {
                            assert(r@[p as int] == q);
                        }
                    }
                } else {
                    assert(r@[p as int] == port);
                }
            },
            None => {},
        }
        assert forall|q: u16| r@.contains(q) <==> exists|k: int| 0 <= k < i + 1 && port_of_key(#[trigger] keys@[k]@) == Some(q) by {
            if r@.contains(q) {
                if prev.contains(q) {
                    let k = choose|k: int| 0 <= k < i && port_of_key(#[trigger] keys@[k]@) == Some(q);
                    assert(0 <= k < i + 1 && port_of_key(keys@[k]@) == Some(q));
                } else {
                    assert(port_of_key(keys@[i as int]@) == Some(q));
                }
            }
            if exists|k: int| 0 <= k < i + 1 && port_of_key(#[trigger] keys@[k]@) == Some(q) {
                let k = choose|k: int| 0 <= k < i + 1 && port_of_key(#[trigger] keys@[k]@) == Some(q);
                if k < i {
                    assert(prev.contains(q));
                } else {
                    assert(parsed == Some(q));
                }
            }
        }
        i = i + 1;
    }
    r
}

} // verus!
