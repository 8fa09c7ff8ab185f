use acdc::registry::{
    blob_url, exposed_ports_from_keys, manifest_step, manifest_url, parse_port_number, preferred_index_manifest,
    search_url, tags_url, token_url, ManifestConfig, ManifestDescriptor, ManifestEnvelope, ManifestPlatform, ManifestStep,
};

fn descriptor(digest: &str, os: Option<&str>, arch: Option<&str>) -> ManifestDescriptor {
    ManifestDescriptor {
        digest: digest.to_string(),
        platform: Some(ManifestPlatform {
            architecture: arch.map(|s| s.to_string()),
            os: os.map(|s| s.to_string()),
        }),
    }
}

#[test]
fn port_keys() {
    assert_eq!(parse_port_number("80/tcp"), Some(80));
    assert_eq!(parse_port_number("53/udp"), Some(53));
    assert_eq!(parse_port_number("8080"), Some(8080));
    assert_eq!(parse_port_number("+443/tcp"), Some(443));
    assert_eq!(parse_port_number("65535/tcp"), Some(65535));
    assert_eq!(parse_port_number("65536/tcp"), None);
    assert_eq!(parse_port_number("http/tcp"), None);
    assert_eq!(parse_port_number("/tcp"), None);
    assert_eq!(parse_port_number(""), None);
}

#[test]
fn exposed_ports_sorted_and_unique() {
    let keys: Vec<String> = ["443/tcp", "80/tcp", "bogus", "80/udp", "8080/tcp"].iter().map(|s| s.to_string()).collect();
    assert_eq!(exposed_ports_from_keys(&keys), vec![80, 443, 8080]);
    assert!(exposed_ports_from_keys(&[]).is_empty());
}

#[test]
fn linux_amd64_preferred() {
    let list = vec![
        descriptor("sha256:arm", Some("linux"), Some("arm64")),
        descriptor("sha256:amd", Some("linux"), Some("amd64")),
    ];
    assert_eq!(preferred_index_manifest(&list), Some(1));
    let others = vec![descriptor("sha256:win", Some("windows"), Some("amd64"))];
    assert_eq!(preferred_index_manifest(&others), Some(0));
    assert_eq!(preferred_index_manifest(&[]), None);
}

#[test]
fn manifest_steps() {
    let direct = ManifestEnvelope { config: Some(ManifestConfig { digest: "sha256:cfg".to_string() }), manifests: None };
    assert!(matches!(manifest_step(&direct, true), ManifestStep::FetchConfig(d) if d == "sha256:cfg"));
    let index = ManifestEnvelope {
        config: None,
        manifests: Some(vec![descriptor("sha256:arm", Some("linux"), Some("arm64")), descriptor("sha256:amd", Some("linux"), Some("amd64"))]),
    };
    assert!(matches!(manifest_step(&index, true), ManifestStep::FetchPlatform(d) if d == "sha256:amd"));
    assert!(matches!(manifest_step(&index, false), ManifestStep::NoConfig));
    let empty = ManifestEnvelope { config: None, manifests: None };
    assert!(matches!(manifest_step(&empty, true), ManifestStep::NoConfig));
}

#[test]
fn registry_addresses() {
    assert_eq!(
        token_url("library", "nginx"),
        "https://auth.docker.io/token?service=registry.docker.io&scope=repository:library/nginx:pull"
    );
    assert_eq!(tags_url("library", "nginx"), "https://registry-1.docker.io/v2/library/nginx/tags/list");
    assert_eq!(manifest_url("a", "b", "1.0"), "https://registry-1.docker.io/v2/a/b/manifests/1.0");
    assert_eq!(blob_url("a", "b", "sha256:x"), "https://registry-1.docker.io/v2/a/b/blobs/sha256:x");
    assert_eq!(
        search_url("my app"),
        "https://hub.docker.com/v2/search/repositories/?query=my%20app&page_size=25"
    );
}
