use ring::api::{delete_deployment, list_filters, Lookup, NOT_FOUND, NO_CONTENT};
use ring::deployment::{Deployment, Status};
use ring::runtime::{container_env, container_labels, network_name, owned_instances, ContainerSummary, Creation, Reply};

fn pair(k: &str, v: &str) -> (String, String) {
    (k.to_string(), v.to_string())
}

fn sample() -> Deployment {
    Deployment {
        id: "d1".to_string(),
        namespace: "prod".to_string(),
        name: "web".to_string(),
        image: "nginx".to_string(),
        runtime: "docker".to_string(),
        replicas: 3,
        labels: "{}".to_string(),
        secrets: "{}".to_string(),
        status: Status::Active,
        instances: vec!["c1".to_string()],
        created_at: 1,
        updated_at: 2,
    }
}

#[test]
fn discovery_keeps_owned_containers_in_order() {
    let cs = vec![
        ContainerSummary { id: "x".to_string(), labels: vec![pair("ring_deployment", "d1")] },
        ContainerSummary { id: "y".to_string(), labels: vec![pair("ring_deployment", "d2")] },
        ContainerSummary { id: "z".to_string(), labels: vec![pair("app", "d1"), pair("ring_deployment", "d1")] },
        ContainerSummary { id: "w".to_string(), labels: vec![] },
    ];
    assert_eq!(owned_instances(&cs, &"d1".to_string()), vec!["x".to_string(), "z".to_string()]);
    assert!(owned_instances(&cs, &"d3".to_string()).is_empty());
}

#[test]
fn container_labels_carry_the_owner() {
    let r = container_labels(&"d1".to_string(), &"{\"app\":\"web\",\"ring_deployment\":\"other\"}".to_string()).unwrap();
    assert_eq!(r, vec![pair("app", "web"), pair("ring_deployment", "d1")]);
    let r = container_labels(&"d1".to_string(), &"{}".to_string()).unwrap();
    assert_eq!(r, vec![pair("ring_deployment", "d1")]);
    assert!(container_labels(&"d1".to_string(), &"not json".to_string()).is_none());
}

#[test]
fn network_is_named_after_namespace() {
    assert_eq!(network_name(&"prod".to_string()), "ring_prod");
    assert_eq!(network_name(&String::new()), "ring_");
}

#[test]
fn creation_steps() {
    let c = Creation::start();
    let c = c.advance(Reply::Done);
    assert!(matches!(c, Creation::InspectNetwork));
    let c = c.advance(Reply::NotFound);
    assert!(matches!(c, Creation::CreateNetwork));
    let c = c.advance(Reply::Done);
    assert!(matches!(c, Creation::CreateContainer));
    let c = c.advance(Reply::ContainerCreated("abc".to_string()));
    assert!(matches!(c, Creation::StartContainer(ref id) if id == "abc"));
    assert!(!c.is_finished());
    let c = c.advance(Reply::Done);
    assert!(matches!(c, Creation::Created(ref id) if id == "abc"));
    assert!(c.is_finished());
}

#[test]
fn creation_aborts_on_failure() {
    let c = Creation::InspectNetwork.advance(Reply::Failed);
    assert!(matches!(c, Creation::Aborted));
    assert!(c.is_finished());
    assert!(matches!(Creation::PullImage.advance(Reply::Failed), Creation::Aborted));
    assert!(matches!(Creation::CreateContainer.advance(Reply::Done), Creation::Aborted));
    assert!(matches!(Creation::InspectNetwork.advance(Reply::Done), Creation::CreateContainer));
}

#[test]
fn status_literals() {
    assert_eq!(Status::parse(&"deleted".to_string()), Some(Status::Deleted));
    assert_eq!(Status::parse(&"active".to_string()), Some(Status::Active));
    assert_eq!(Status::parse(&"delete".to_string()), None);
    assert_eq!(Status::Deleted.marker(), "deleted");
}

#[test]
fn delete_marks_and_answers() {
    let r = delete_deployment(Lookup::Found(sample()));
    assert_eq!(r.status_code, NO_CONTENT);
    let u = r.update.unwrap();
    assert_eq!(u.status, Status::Deleted);
    assert_eq!(u.id, "d1");
    let r = delete_deployment(Lookup::Missing);
    assert_eq!(r.status_code, NOT_FOUND);
    assert!(r.update.is_none());
    let r = delete_deployment(Lookup::StoreError);
    assert_eq!(r.status_code, 204);
    assert!(r.update.is_none());
}

#[test]
fn listing_filters() {
    assert!(list_filters(None).is_empty());
    assert_eq!(list_filters(Some("prod".to_string())), vec![pair("namespace", "prod")]);
}

#[test]
fn deployment_updates() {
    let mut d = sample();
    d.set_instances(vec!["a".to_string(), "b".to_string()]);
    assert_eq!(d.instances.len(), 2);
    assert!(!d.is_drained());
    d.mark_deleted();
    assert_eq!(d.status, Status::Deleted);
    assert!(!d.is_drained());
    d.set_instances(Vec::new());
    assert!(d.is_drained());
}

#[test]
fn secrets_become_environment_entries() {
    let env = container_env(&"{\"DB\":\"s3cret\",\"USER\":\"admin\"}".to_string()).unwrap();
    assert_eq!(env, vec!["DB=s3cret".to_string(), "USER=admin".to_string()]);
    assert!(container_env(&"{}".to_string()).unwrap().is_empty());
    assert!(container_env(&"[1]".to_string()).is_none());
}
