use acdc::project::{App, EnvVar, ImageEntry, VolumeEntry, VolumeMount};

fn entry(name: &str, namespace: &str, repo: &str, tag: &str, mapping: &str) -> ImageEntry {
    ImageEntry {
        service_name: name.to_string(),
        namespace: namespace.to_string(),
        repo: repo.to_string(),
        tag: tag.to_string(),
        port_mapping: mapping.to_string(),
        mounts: Vec::new(),
        env_vars: Vec::new(),
    }
}

#[test]
fn compose_single_service() {
    let mut app = App::new("demo".to_string());
    app.images.push(entry("web", "library", "nginx", "latest", "8080:80"));
    assert_eq!(
        app.compose_yaml(),
        "services:\n  web:\n    image: nginx:latest\n    ports:\n      - \"8080:80\"\n"
    );
}

#[test]
fn compose_empty_project() {
    let mut app = App::new("demo".to_string());
    app.volumes.push(VolumeEntry { name: "data".to_string() });
    assert_eq!(
        app.compose_yaml(),
        "services:\n  # No services yet\n  # Press n in Images tab to add one\n"
    );
}

#[test]
fn compose_full_service() {
    let mut app = App::new("demo".to_string());
    let mut e = entry("db", "bitnami", "postgresql", "16", "8000:5432");
    e.mounts.push(VolumeMount { source: "pgdata".to_string(), target: "/var/lib/pg".to_string() });
    e.env_vars.push(EnvVar { key: "POSTGRES_PASSWORD".to_string(), value: "a=b c".to_string() });
    app.images.push(e);
    app.volumes.push(VolumeEntry { name: "pgdata".to_string() });
    assert_eq!(
        app.compose_yaml(),
        "services:\n  db:\n    image: bitnami/postgresql:16\n    ports:\n      - \"8000:5432\"\n    volumes:\n      - \"pgdata:/var/lib/pg\"\n    environment:\n      - POSTGRES_PASSWORD=a=b c\n\nvolumes:\n  pgdata:\n"
    );
}

#[test]
fn log_keeps_last_five() {
    let mut app = App::new("demo".to_string());
    assert_eq!(app.command_log, vec!["ready".to_string()]);
    for i in 0..6 {
        app.push_log(format!("line {i}"));
    }
    assert_eq!(app.command_log.len(), 5);
    assert_eq!(app.command_log[0], "line 1");
    assert_eq!(app.command_log[4], "line 5");
}

#[test]
fn default_mapping_and_counts() {
    let mut app = App::new("demo".to_string());
    assert_eq!(app.next_port_mapping(), "8000:80");
    app.images.push(entry("a", "library", "nginx", "1", "8000:80"));
    app.images.push(entry("b", "library", "redis", "1", "6379"));
    assert_eq!(app.next_port_mapping(), "8002:80");
    assert_eq!(app.total_exposed_ports(), 1);
}
