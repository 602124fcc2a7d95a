use pouchdb::events::SequenceID;
use pouchdb::options::all_docs::AllDocsOptions;
use pouchdb::options::changes::{Changes, Timeout};
use pouchdb::options::create::{Adapter, Auth, CreateOptions};
use pouchdb::options::fetch::{FetchOptions, OpenRevs};
use pouchdb::options::query::{QueryOptions, StaleOption};
use pouchdb::options::replication::Replication;
use pouchdb::options::selector::Selector;
use pouchdb::value::{Number, RawValue};

fn object(members: Vec<(&str, RawValue)>) -> RawValue {
    RawValue::Object(members.into_iter().map(|(key, value)| (key.to_string(), value)).collect())
}

fn texts(items: Vec<&str>) -> RawValue {
    RawValue::Array(items.into_iter().map(RawValue::text).collect())
}

fn json(value: &RawValue) -> serde_json::Value {
    match value {
        RawValue::Undefined | RawValue::Null => serde_json::Value::Null,
        RawValue::Bool(b) => serde_json::Value::Bool(*b),
        RawValue::Number(Number::Integer(n)) => serde_json::Value::from(*n),
        RawValue::Number(Number::Real(bits)) => serde_json::Value::from(f64::from_bits(*bits)),
        RawValue::Text(s) => serde_json::Value::String(s.clone()),
        RawValue::Blob(_) => serde_json::Value::Object(serde_json::Map::new()),
        RawValue::Array(items) => serde_json::Value::Array(items.iter().map(json).collect()),
        RawValue::Object(members) => serde_json::Value::Object(
            members.iter().map(|(key, value)| (key.clone(), json(value))).collect(),
        ),
    }
}

#[test]
fn openrevs_serializes_correctly() {
    let all = OpenRevs::All;
    let specific = OpenRevs::from(vec!["bla", "blub", "three"]);

    let all_string = serde_json::to_string(&json(&all.to_raw().unwrap())).unwrap();
    assert_eq!(all_string, r#""all""#);

    let specific_string = serde_json::to_string(&json(&specific.to_raw().unwrap())).unwrap();
    assert_eq!(specific_string, r#"["bla","blub","three"]"#);
}

#[test]
fn open_revs_default_is_not_sent() {
    assert!(OpenRevs::Default.is_default());
    assert!(OpenRevs::default().is_default());
    assert!(!OpenRevs::All.is_default());
    assert!(!OpenRevs::Revs(vec![]).is_default());
    assert_eq!(OpenRevs::Default.to_raw(), None);
    assert_eq!(OpenRevs::All.to_raw(), Some(RawValue::text("all")));
    assert_eq!(OpenRevs::Revs(vec![]).to_raw(), Some(RawValue::Array(vec![])));
}

#[test]
fn open_revs_from_keeps_the_order() {
    assert_eq!(
        OpenRevs::from(vec!["1-a".to_string(), "2-b".to_string(), "3-c".to_string()]),
        OpenRevs::Revs(vec!["1-a".to_string(), "2-b".to_string(), "3-c".to_string()])
    );
    assert_eq!(OpenRevs::from(Vec::<String>::new()), OpenRevs::Revs(vec![]));
    assert_eq!(OpenRevs::from(vec!["x"]), OpenRevs::Revs(vec!["x".to_string()]));
}

#[test]
fn fetch_options_default_to_nothing_sent() {
    assert_eq!(FetchOptions::default().to_raw(), object(vec![]));
}

#[test]
fn fetch_options_are_sent_in_order() {
    let options = FetchOptions::default()
        .latest(true)
        .binary(true)
        .attachments(true)
        .conflicts(vec!["2-x".to_string()])
        .open_revs(vec!["1-a", "1-b"])
        .revs_info(true)
        .revs(true)
        .rev("3-c");
    assert_eq!(
        options.to_raw(),
        object(vec![
            ("rev", RawValue::text("3-c")),
            ("revs", RawValue::Bool(true)),
            ("revs_info", RawValue::Bool(true)),
            ("open_revs", texts(vec!["1-a", "1-b"])),
            ("conflicts", texts(vec!["2-x"])),
            ("attachments", RawValue::Bool(true)),
            ("binary", RawValue::Bool(true)),
            ("latest", RawValue::Bool(true)),
        ])
    );
}

#[test]
fn fetch_builders_set_one_option_each() {
    let base = FetchOptions::default();
    assert_eq!(base.rev, None);
    let options = FetchOptions::default().rev(String::from("1-a"));
    assert_eq!(options.rev, Some("1-a".to_string()));
    assert!(!options.revs && !options.revs_info && !options.attachments);
    assert!(FetchOptions::default().revs(true).revs);
    assert!(!FetchOptions::default().revs(true).revs(false).revs);
    assert!(FetchOptions::default().revs_info(true).revs_info);
    assert_eq!(FetchOptions::default().open_revs(OpenRevs::All).open_revs, OpenRevs::All);
    assert_eq!(
        FetchOptions::default().conflicts(vec!["a".to_string()]).conflicts,
        Some(vec!["a".to_string()])
    );
    assert!(FetchOptions::default().attachments(true).attachments);
    assert!(FetchOptions::default().binary(true).binary);
    assert!(FetchOptions::default().latest(true).latest);
    assert_eq!(
        FetchOptions::default().open_revs(OpenRevs::All).to_raw(),
        object(vec![("open_revs", RawValue::text("all"))])
    );
    assert_eq!(
        FetchOptions::default().conflicts(Vec::<String>::new()).to_raw(),
        object(vec![("conflicts", RawValue::Array(vec![]))])
    );
}

#[test]
fn create_options_default_to_nothing_sent() {
    assert_eq!(CreateOptions::default().to_raw(), object(vec![]));
}

#[test]
fn create_options_are_sent_in_order() {
    let options = CreateOptions::default()
        .skip_setup(true)
        .auth(Auth { username: "u".to_string(), password: "p".to_string() })
        .deterministic_revs(false)
        .revs_limit(50)
        .adapter(Adapter::HTTP)
        .name("notes");
    assert_eq!(
        options.to_raw(),
        object(vec![
            ("name", RawValue::text("notes")),
            ("adapter", RawValue::text("http")),
            ("revs_limit", RawValue::integer(50)),
            ("deterministic_revs", RawValue::Bool(false)),
            (
                "auth",
                object(vec![("username", RawValue::text("u")), ("password", RawValue::text("p"))]),
            ),
            ("skip_setup", RawValue::Bool(true)),
        ])
    );
}

#[test]
fn create_builders_set_one_option_each() {
    let options = CreateOptions::default().name("a");
    assert_eq!(options.name, Some("a".to_string()));
    assert_eq!(options.adapter, None);
    assert_eq!(CreateOptions::default().adapter(Adapter::IDB).adapter, Some(Adapter::IDB));
    assert_eq!(CreateOptions::default().revs_limit(7i32).revs_limit, Some(7));
    assert_eq!(CreateOptions::default().deterministic_revs(true).deterministic_revs, Some(true));
    assert!(CreateOptions::default().skip_setup(true).skip_setup);
    assert!(!CreateOptions::default().skip_setup(true).skip_setup(false).skip_setup);
    let auth = Auth { username: "u".to_string(), password: "p".to_string() };
    assert_eq!(CreateOptions::default().auth(auth.clone()).auth, Some(auth));
}

#[test]
fn adapters_are_sent_by_name() {
    assert_eq!(Adapter::IDB.to_raw(), RawValue::text("idb"));
    assert_eq!(Adapter::LevelDB.to_raw(), RawValue::text("leveldb"));
    assert_eq!(Adapter::HTTP.to_raw(), RawValue::text("http"));
}

#[test]
fn all_docs_options_default_to_nothing_sent() {
    let options = AllDocsOptions::default();
    assert!(options.inclusive_end);
    assert_eq!(options.to_raw(), object(vec![]));
}

#[test]
fn all_docs_options_are_sent_in_order() {
    let options = AllDocsOptions {
        include_docs: true,
        conflicts: true,
        attachments: true,
        startkey: Some("a".to_string()),
        endkey: Some("z".to_string()),
        inclusive_end: false,
        limit: Some(10),
        skip: Some(0),
        descending: true,
        key: Some("k".to_string()),
        keys: vec!["k1".to_string(), "k2".to_string()],
        update_seq: true,
    };
    assert_eq!(
        options.to_raw(),
        object(vec![
            ("include_docs", RawValue::Bool(true)),
            ("conflicts", RawValue::Bool(true)),
            ("attachments", RawValue::Bool(true)),
            ("startkey", RawValue::text("a")),
            ("endkey", RawValue::text("z")),
            ("inclusive_end", RawValue::Bool(false)),
            ("limit", RawValue::integer(10)),
            ("skip", RawValue::integer(0)),
            ("descending", RawValue::Bool(true)),
            ("key", RawValue::text("k")),
            ("keys", texts(vec!["k1", "k2"])),
            ("update_seq", RawValue::Bool(true)),
        ])
    );
}

#[test]
fn query_options_follow_those_of_the_listing() {
    assert_eq!(QueryOptions::default().to_raw(), object(vec![]));
    let options = QueryOptions {
        all_docs: AllDocsOptions { descending: true, ..AllDocsOptions::default() },
        group: true,
        group_level: Some(2),
        stale: Some(StaleOption::UpdateAfter),
    };
    assert_eq!(
        options.to_raw(),
        object(vec![
            ("descending", RawValue::Bool(true)),
            ("group", RawValue::Bool(true)),
            ("group_level", RawValue::integer(2)),
            ("stale", RawValue::text("update_after")),
        ])
    );
    assert_eq!(StaleOption::Stale.to_raw(), RawValue::text("ok"));
}

#[test]
fn timeouts_are_sent_unless_default() {
    assert!(Timeout::Default.is_default());
    assert!(Timeout::default().is_default());
    assert!(!Timeout::Unlimited.is_default());
    assert!(!Timeout::Duration(Number::Integer(0)).is_default());
    assert_eq!(Timeout::Default.to_raw(), None);
    assert_eq!(Timeout::Unlimited.to_raw(), Some(RawValue::Bool(false)));
    assert_eq!(Timeout::Duration(Number::Integer(2500)).to_raw(), Some(RawValue::integer(2500)));
    assert_eq!(
        Timeout::Duration(Number::Real(0.5f64.to_bits())).to_raw(),
        Some(RawValue::Number(Number::Real(0.5f64.to_bits())))
    );
}

#[test]
fn changes_options_default_to_nothing_sent() {
    assert_eq!(Changes::default().to_raw(), object(vec![]));
    assert_eq!(Changes::default().to_request(false), object(vec![]));
    assert_eq!(Changes::default().to_request(true), object(vec![("live", RawValue::Bool(true))]));
}

#[test]
fn changes_options_are_sent_in_order() {
    let options = Changes {
        include_docs: true,
        include_conflicts: true,
        include_attachments: true,
        descending: true,
        since: Some(SequenceID(RawValue::integer(4))),
        limit: Some(3),
        timeout: Timeout::Unlimited,
        heartbeat: Timeout::Duration(Number::Integer(1000)),
        filter: Some("_view".to_string()),
        doc_ids: vec!["a".to_string()],
        query_params: None,
        view: Some("v/v".to_string()),
        selector: Some(Selector::default()),
        batch_size: Some(25),
    };
    let sent = object(vec![
        ("include_docs", RawValue::Bool(true)),
        ("include_conflicts", RawValue::Bool(true)),
        ("include_attachments", RawValue::Bool(true)),
        ("descending", RawValue::Bool(true)),
        ("limit", RawValue::integer(3)),
        ("timeout", RawValue::Bool(false)),
        ("heartbeat", RawValue::integer(1000)),
        ("filter", RawValue::text("_view")),
        ("doc_ids", texts(vec!["a"])),
        ("view", RawValue::text("v/v")),
        ("selector", object(vec![])),
        ("batch_size", RawValue::integer(25)),
    ]);
    assert_eq!(options.to_raw(), sent);
    assert_eq!(options.to_request(false), sent);
}

#[test]
fn parameters_of_the_filter_are_stored_over_the_options() {
    let options = Changes {
        limit: Some(3),
        since: Some(SequenceID(RawValue::text("now"))),
        query_params: Some(object(vec![
            ("foo", RawValue::text("bar")),
            ("limit", RawValue::integer(9)),
        ])),
        ..Changes::default()
    };
    assert_eq!(
        options.to_request(true),
        object(vec![
            ("limit", RawValue::integer(9)),
            ("foo", RawValue::text("bar")),
            ("since", RawValue::text("now")),
            ("live", RawValue::Bool(true)),
        ])
    );
}

#[test]
fn place_to_start_from_is_sent_with_parameters_only() {
    let options =
        Changes { since: Some(SequenceID(RawValue::integer(4))), ..Changes::default() };
    assert_eq!(options.to_request(true), object(vec![("live", RawValue::Bool(true))]));
    let options = Changes {
        since: Some(SequenceID(RawValue::integer(4))),
        query_params: Some(RawValue::Null),
        ..Changes::default()
    };
    assert_eq!(
        options.to_request(false),
        object(vec![("since", RawValue::integer(4))])
    );
}

#[test]
fn replication_options_are_sent_in_order() {
    assert_eq!(Replication::default().to_raw(), object(vec![]));
    let options = Replication {
        filter: Some("f".to_string()),
        doc_ids: vec!["a".to_string(), "b".to_string()],
        query_params: Some(object(vec![("foo", RawValue::text("bar"))])),
        view: Some("v".to_string()),
        selector: Some(Selector::default()),
        since: Some(SequenceID(RawValue::integer(2))),
        heartbeat: Timeout::Unlimited,
        timeout: Timeout::Duration(Number::Integer(5000)),
        batch_size: Some(100),
        batches_limit: Some(10),
    };
    let sent = vec![
        ("filter", RawValue::text("f")),
        ("doc_ids", texts(vec!["a", "b"])),
        ("view", RawValue::text("v")),
        ("selector", object(vec![])),
        ("heartbeat", RawValue::Bool(false)),
        ("timeout", RawValue::integer(5000)),
        ("batch_size", RawValue::integer(100)),
        ("batches_limit", RawValue::integer(10)),
    ];
    assert_eq!(options.to_raw(), object(sent.clone()));
    let mut request = sent;
    request.push(("foo", RawValue::text("bar")));
    request.push(("since", RawValue::integer(2)));
    request.push(("live", RawValue::Bool(true)));
    request.push(("retry", RawValue::Bool(true)));
    assert_eq!(options.to_request(true), object(request));
    assert_eq!(
        Replication::default().to_request(false),
        object(vec![("live", RawValue::Bool(true))])
    );
}

#[test]
fn selector_that_picks_everything_is_an_empty_object() {
    assert_eq!(Selector::default().to_raw(), object(vec![]));
}
