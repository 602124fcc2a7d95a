use pouchdb::document::{
    encode_deleted, encode_live, serialize, Attachment, Document, Revision, SerializedDocument,
    SerializedDocumentData,
};
use pouchdb::error::{DecodingFailure, EncodingFailure, Error};
use pouchdb::value::{Blob, BlobContent, Number, RawValue};

fn object(members: Vec<(&str, RawValue)>) -> RawValue {
    RawValue::Object(members.into_iter().map(|(key, value)| (key.to_string(), value)).collect())
}

struct Note {
    id: String,
    rev: Option<Revision>,
    body: Result<RawValue, RawValue>,
    attachments: Vec<(String, Blob)>,
    deleted: bool,
}

impl Document for Note {
    fn id(&self) -> String {
        self.id.clone()
    }
    fn rev(&self) -> Option<&Revision> {
        self.rev.as_ref()
    }
    fn serialize(&self) -> Result<RawValue, RawValue> {
        match &self.body {
            Ok(body) => Ok(body.clone()),
            Err(raised) => Err(raised.clone()),
        }
    }
    fn attachments(&self) -> Vec<(String, Blob)> {
        self.attachments.clone()
    }
    fn deleted(&self) -> bool {
        self.deleted
    }
}

struct Bare;

impl Document for Bare {
    fn id(&self) -> String {
        "bare".to_string()
    }
    fn rev(&self) -> Option<&Revision> {
        None
    }
    fn serialize(&self) -> Result<RawValue, RawValue> {
        Ok(object(vec![("n", RawValue::integer(1))]))
    }
}

fn note() -> Note {
    Note {
        id: "note-1".to_string(),
        rev: None,
        body: Ok(object(vec![("title", RawValue::text("hello")), ("n", RawValue::integer(4))])),
        attachments: vec![],
        deleted: false,
    }
}

#[test]
fn deleted_document_is_written_as_marker_and_id() {
    let doc = Note {
        deleted: true,
        attachments: vec![("a".to_string(), Blob::from_bytes("text/plain", vec![1]))],
        ..note()
    };
    assert_eq!(
        serialize(&doc).unwrap(),
        object(vec![("_deleted", RawValue::Bool(true)), ("_id", RawValue::text("note-1"))])
    );
}

#[test]
fn deleted_document_with_revision_is_written_with_it() {
    let doc = Note { deleted: true, rev: Some(Revision(RawValue::text("3-c"))), ..note() };
    assert_eq!(
        serialize(&doc).unwrap(),
        object(vec![
            ("_deleted", RawValue::Bool(true)),
            ("_id", RawValue::text("note-1")),
            ("_rev", RawValue::text("3-c")),
        ])
    );
    assert_eq!(
        encode_deleted("note-1", Some(&Revision(RawValue::text("3-c")))),
        serialize(&doc).unwrap()
    );
}

#[test]
fn deleted_document_is_written_even_if_its_body_fails() {
    let doc = Note { deleted: true, body: Err(RawValue::text("broken")), ..note() };
    assert_eq!(
        serialize(&doc).unwrap(),
        object(vec![("_deleted", RawValue::Bool(true)), ("_id", RawValue::text("note-1"))])
    );
}

#[test]
fn plain_document_is_written_as_body_with_id() {
    let written = serialize(&note()).unwrap();
    assert_eq!(
        written,
        object(vec![
            ("title", RawValue::text("hello")),
            ("n", RawValue::integer(4)),
            ("_id", RawValue::text("note-1")),
        ])
    );
    assert_eq!(written.get("_attachments"), None);
    assert_eq!(written.get("_rev"), None);
    assert_eq!(written.get("_deleted"), None);
}

#[test]
fn plain_document_with_revision_is_written_with_it() {
    let doc = Note { rev: Some(Revision(RawValue::text("1-a"))), ..note() };
    assert_eq!(
        serialize(&doc).unwrap(),
        object(vec![
            ("title", RawValue::text("hello")),
            ("n", RawValue::integer(4)),
            ("_id", RawValue::text("note-1")),
            ("_rev", RawValue::text("1-a")),
        ])
    );
}

#[test]
fn identifier_in_the_body_is_overwritten_in_place() {
    let doc = Note {
        body: Ok(object(vec![("_id", RawValue::text("other")), ("n", RawValue::integer(4))])),
        ..note()
    };
    assert_eq!(
        serialize(&doc).unwrap(),
        object(vec![("_id", RawValue::text("note-1")), ("n", RawValue::integer(4))])
    );
}

#[test]
fn attachments_are_written_under_their_names() {
    let doc = Note {
        attachments: vec![
            ("a.txt".to_string(), Blob::from_bytes("text/plain", vec![1, 2, 3])),
            ("b.png".to_string(), Blob::from_host("image/png", 7)),
        ],
        ..note()
    };
    assert_eq!(
        serialize(&doc).unwrap(),
        object(vec![
            ("title", RawValue::text("hello")),
            ("n", RawValue::integer(4)),
            (
                "_attachments",
                object(vec![
                    (
                        "a.txt",
                        object(vec![
                            ("content_type", RawValue::text("text/plain")),
                            ("data", RawValue::Blob(Blob::from_bytes("text/plain", vec![1, 2, 3]))),
                        ]),
                    ),
                    (
                        "b.png",
                        object(vec![
                            ("content_type", RawValue::text("image/png")),
                            ("data", RawValue::Blob(Blob::from_host("image/png", 7))),
                        ]),
                    ),
                ]),
            ),
            ("_id", RawValue::text("note-1")),
        ])
    );
}

#[test]
fn later_attachment_of_a_name_replaces_the_earlier() {
    let attachments = vec![
        ("a".to_string(), Blob::from_host("text/plain", 1)),
        ("b".to_string(), Blob::from_host("text/plain", 2)),
        ("a".to_string(), Blob::from_host("text/html", 3)),
    ];
    let written = encode_live(object(vec![]), &attachments, "x", None).unwrap();
    assert_eq!(
        written.get("_attachments"),
        Some(&object(vec![
            (
                "a",
                object(vec![
                    ("content_type", RawValue::text("text/html")),
                    ("data", RawValue::Blob(Blob::from_host("text/html", 3))),
                ]),
            ),
            (
                "b",
                object(vec![
                    ("content_type", RawValue::text("text/plain")),
                    ("data", RawValue::Blob(Blob::from_host("text/plain", 2))),
                ]),
            ),
        ]))
    );
}

#[test]
fn body_that_is_no_object_cannot_be_written() {
    let doc = Note { body: Ok(RawValue::text("just text")), ..note() };
    assert!(matches!(serialize(&doc), Err(Error::Encoding(EncodingFailure::Body))));
    assert!(matches!(
        encode_live(RawValue::Array(vec![]), &vec![], "x", None),
        Err(Error::Encoding(EncodingFailure::Body))
    ));
    assert!(matches!(
        encode_live(RawValue::Null, &vec![], "x", None),
        Err(Error::Encoding(EncodingFailure::Body))
    ));
}

#[test]
fn failure_of_the_serializer_is_passed_on() {
    let doc = Note { body: Err(RawValue::text("broken")), ..note() };
    match serialize(&doc) {
        Err(Error::Encoding(EncodingFailure::Serializer(raised))) => {
            assert_eq!(raised, RawValue::text("broken"))
        }
        other => panic!("unexpected {:?}", other),
    }
}

#[test]
fn document_defaults_are_no_attachments_and_not_deleted() {
    assert!(Bare.attachments().is_empty());
    assert!(!Bare.deleted());
    assert_eq!(
        serialize(&Bare).unwrap(),
        object(vec![("n", RawValue::integer(1)), ("_id", RawValue::text("bare"))])
    );
}

#[test]
fn round_trip_keeps_the_identifier() {
    let doc = Note { rev: Some(Revision(RawValue::text("1-a"))), ..note() };
    let read = SerializedDocument::try_from(serialize(&doc).unwrap()).unwrap();
    assert_eq!(read.id, "note-1");
    assert_eq!(read.rev, Some(Revision(RawValue::text("1-a"))));
    assert!(read.attachments.is_empty());
    assert!(read.conflicts.is_empty());
    assert!(!read.deleted);
    assert_eq!(read.data, serialize(&doc).unwrap());
}

#[test]
fn round_trip_of_a_deletion_keeps_the_identifier() {
    let doc = Note { deleted: true, ..note() };
    let read = SerializedDocument::try_from(serialize(&doc).unwrap()).unwrap();
    assert_eq!(read.id, "note-1");
    assert_eq!(read.rev, None);
    assert!(read.attachments.is_empty());
    assert!(read.conflicts.is_empty());
}

#[test]
fn document_without_id_is_refused() {
    let raw = object(vec![("_rev", RawValue::text("1-a")), ("title", RawValue::text("t"))]);
    assert!(matches!(
        SerializedDocument::try_from(raw),
        Err(Error::Decoding(DecodingFailure::DocumentId))
    ));
}

#[test]
fn document_with_id_that_is_no_text_is_refused() {
    for id in [
        RawValue::integer(5),
        RawValue::Null,
        RawValue::Undefined,
        RawValue::Bool(true),
        RawValue::Array(vec![RawValue::text("x")]),
    ] {
        assert!(matches!(
            SerializedDocument::try_from(object(vec![("_id", id)])),
            Err(Error::Decoding(DecodingFailure::DocumentId))
        ));
    }
}

#[test]
fn payload_that_is_no_object_is_refused() {
    for raw in [RawValue::text("_id"), RawValue::Null, RawValue::Array(vec![])] {
        assert!(matches!(
            SerializedDocument::try_from(raw),
            Err(Error::Decoding(DecodingFailure::DocumentId))
        ));
    }
}

#[test]
fn empty_identifier_is_an_identifier() {
    let read = SerializedDocument::try_from(object(vec![("_id", RawValue::text(""))])).unwrap();
    assert_eq!(read.id, "");
}

#[test]
fn revision_is_taken_as_it_is() {
    let raw = object(vec![("_id", RawValue::text("x")), ("_rev", RawValue::integer(12))]);
    let read = SerializedDocument::try_from(raw).unwrap();
    assert_eq!(read.rev, Some(Revision(RawValue::integer(12))));
    let raw = object(vec![("_id", RawValue::text("x")), ("_rev", RawValue::Null)]);
    assert_eq!(SerializedDocument::try_from(raw).unwrap().rev, Some(Revision(RawValue::Null)));
    let raw = object(vec![("_id", RawValue::text("x")), ("_rev", RawValue::Undefined)]);
    assert_eq!(SerializedDocument::try_from(raw).unwrap().rev, None);
    let raw = object(vec![("_id", RawValue::text("x"))]);
    assert_eq!(SerializedDocument::try_from(raw).unwrap().rev, None);
}

#[test]
fn conflicts_are_the_elements_of_the_array() {
    let raw = object(vec![
        ("_id", RawValue::text("x")),
        (
            "_conflicts",
            RawValue::Array(vec![RawValue::text("2-a"), RawValue::Null, RawValue::text("2-b")]),
        ),
    ]);
    assert_eq!(
        SerializedDocument::try_from(raw).unwrap().conflicts,
        vec![
            Revision(RawValue::text("2-a")),
            Revision(RawValue::Null),
            Revision(RawValue::text("2-b")),
        ]
    );
}

#[test]
fn conflicts_that_are_false_or_no_array_are_none() {
    for listed in [
        RawValue::Null,
        RawValue::Bool(false),
        RawValue::integer(0),
        RawValue::text(""),
        RawValue::Bool(true),
        RawValue::text("2-a"),
        object(vec![("0", RawValue::text("2-a"))]),
    ] {
        let raw = object(vec![("_id", RawValue::text("x")), ("_conflicts", listed)]);
        assert!(SerializedDocument::try_from(raw).unwrap().conflicts.is_empty());
    }
}

fn entry(members: Vec<(&str, RawValue)>) -> RawValue {
    object(members)
}

fn with_attachments(entries: Vec<(&str, RawValue)>) -> RawValue {
    object(vec![("_id", RawValue::text("x")), ("_attachments", object(entries))])
}

#[test]
fn attachment_without_digest_is_passed_over() {
    let blob = Blob::from_host("text/plain", 1);
    let raw = with_attachments(vec![
        ("no-digest", entry(vec![("data", RawValue::Blob(blob.clone()))])),
        (
            "kept",
            entry(vec![("digest", RawValue::text("md5-1")), ("data", RawValue::Blob(blob.clone()))]),
        ),
    ]);
    let read = SerializedDocument::try_from(raw).unwrap();
    assert_eq!(
        read.attachments,
        vec![("kept".to_string(), Attachment::Data { blob, digest: "md5-1".to_string() })]
    );
}

#[test]
fn attachment_with_false_or_untextual_digest_is_passed_over() {
    let blob = RawValue::Blob(Blob::from_host("text/plain", 1));
    for digest in [
        RawValue::text(""),
        RawValue::Null,
        RawValue::Undefined,
        RawValue::Bool(false),
        RawValue::integer(0),
        RawValue::integer(17),
        RawValue::Bool(true),
    ] {
        let raw =
            with_attachments(vec![("a", entry(vec![("digest", digest), ("data", blob.clone())]))]);
        assert!(SerializedDocument::try_from(raw).unwrap().attachments.is_empty());
    }
}

#[test]
fn attachment_that_is_no_object_is_passed_over() {
    let raw = with_attachments(vec![("a", RawValue::text("digest")), ("b", RawValue::Null)]);
    assert!(SerializedDocument::try_from(raw).unwrap().attachments.is_empty());
    let raw = object(vec![("_id", RawValue::text("x")), ("_attachments", RawValue::text("a"))]);
    assert!(SerializedDocument::try_from(raw).unwrap().attachments.is_empty());
}

#[test]
fn stub_needs_a_content_type() {
    let raw = with_attachments(vec![
        (
            "stub",
            entry(vec![
                ("digest", RawValue::text("md5-1")),
                ("stub", RawValue::Bool(true)),
                ("content_type", RawValue::text("text/plain")),
            ]),
        ),
        ("untyped", entry(vec![("digest", RawValue::text("md5-2")), ("stub", RawValue::Bool(true))])),
        (
            "empty-type",
            entry(vec![
                ("digest", RawValue::text("md5-3")),
                ("stub", RawValue::integer(1)),
                ("content_type", RawValue::text("")),
            ]),
        ),
        (
            "stub-with-data",
            entry(vec![
                ("digest", RawValue::text("md5-4")),
                ("stub", RawValue::text("yes")),
                ("data", RawValue::Blob(Blob::from_host("text/plain", 1))),
            ]),
        ),
    ]);
    let read = SerializedDocument::try_from(raw).unwrap();
    assert_eq!(
        read.attachments,
        vec![(
            "stub".to_string(),
            Attachment::Stub { content_type: "text/plain".to_string(), digest: "md5-1".to_string() }
        )]
    );
    assert!(read.attachments[0].1.is_stub());
}

#[test]
fn attachment_without_stub_flag_needs_its_payload() {
    let blob = Blob::from_bytes("image/png", vec![9, 8]);
    let raw = with_attachments(vec![
        (
            "data",
            entry(vec![
                ("digest", RawValue::text("md5-1")),
                ("stub", RawValue::Bool(false)),
                ("content_type", RawValue::text("ignored/here")),
                ("data", RawValue::Blob(blob.clone())),
            ]),
        ),
        ("no-data", entry(vec![("digest", RawValue::text("md5-2"))])),
        (
            "text-data",
            entry(vec![("digest", RawValue::text("md5-3")), ("data", RawValue::text("AQID"))]),
        ),
    ]);
    let read = SerializedDocument::try_from(raw).unwrap();
    assert_eq!(
        read.attachments,
        vec![("data".to_string(), Attachment::Data { blob, digest: "md5-1".to_string() })]
    );
    assert!(!read.attachments[0].1.is_stub());
}

#[test]
fn read_document_is_never_deleted_and_keeps_the_payload() {
    let raw = object(vec![
        ("_id", RawValue::text("x")),
        ("_deleted", RawValue::Bool(true)),
        ("n", RawValue::Number(Number::Real(2.5f64.to_bits()))),
    ]);
    let read = SerializedDocument::try_from(raw.clone()).unwrap();
    assert!(!read.deleted);
    assert_eq!(read.data, raw);
}

#[test]
fn new_deleted_holds_only_id_and_rev() {
    let doc = SerializedDocument::new_deleted("x", RawValue::text("2-b"));
    assert_eq!(doc.id, "x");
    assert_eq!(doc.rev, Some(Revision(RawValue::text("2-b"))));
    assert!(doc.conflicts.is_empty());
    assert!(doc.attachments.is_empty());
    assert!(doc.deleted);
    assert_eq!(doc.data, RawValue::Null);
}

fn two_attachments() -> SerializedDocument {
    SerializedDocument {
        id: "doc".to_string(),
        rev: Some(Revision(RawValue::text("1-a"))),
        conflicts: vec![],
        attachments: vec![
            (
                "a".to_string(),
                Attachment::Data {
                    blob: Blob::from_host("text/plain", 11),
                    digest: "md5-a".to_string(),
                },
            ),
            (
                "b".to_string(),
                Attachment::Stub {
                    content_type: "image/png".to_string(),
                    digest: "md5-b".to_string(),
                },
            ),
        ],
        deleted: false,
        data: object(vec![
            ("_id", RawValue::text("doc")),
            ("title", RawValue::text("t")),
            ("gone", RawValue::Undefined),
        ]),
    }
}

#[test]
fn resolving_keeps_data_attachments_only() {
    let doc = two_attachments();
    assert_eq!(doc.payloads(), vec![("a".to_string(), Blob::from_host("text/plain", 11))]);
    let data = doc.into_serialized(vec![vec![1, 2, 3]]).unwrap();
    assert_eq!(data.id, "doc");
    assert_eq!(
        data.attachments,
        vec![("a".to_string(), ("text/plain".to_string(), vec![1, 2, 3]))]
    );
    assert_eq!(
        data.data,
        object(vec![("_id", RawValue::text("doc")), ("title", RawValue::text("t"))])
    );
    assert_eq!(data.rev(), None);
}

#[test]
fn resolving_zips_buffers_in_the_order_of_the_payloads() {
    let mut doc = two_attachments();
    doc.attachments.push((
        "c".to_string(),
        Attachment::Data { blob: Blob::from_bytes("text/html", vec![7]), digest: "md5-c".to_string() },
    ));
    let data = doc.into_serialized(vec![vec![1], vec![2, 2]]).unwrap();
    assert_eq!(
        data.attachments,
        vec![
            ("a".to_string(), ("text/plain".to_string(), vec![1])),
            ("c".to_string(), ("text/html".to_string(), vec![2, 2])),
        ]
    );
}

#[test]
fn resolving_needs_one_buffer_for_each_payload() {
    assert!(matches!(
        two_attachments().into_serialized(vec![]),
        Err(Error::Decoding(DecodingFailure::Reads))
    ));
    assert!(matches!(
        two_attachments().into_serialized(vec![vec![1], vec![2]]),
        Err(Error::Decoding(DecodingFailure::Reads))
    ));
}

#[test]
fn resolving_without_attachments_needs_no_buffers() {
    let doc = SerializedDocument::try_from(object(vec![("_id", RawValue::text("x"))])).unwrap();
    let data = doc.into_serialized(vec![]).unwrap();
    assert!(data.attachments.is_empty());
    assert_eq!(data.data, object(vec![("_id", RawValue::text("x"))]));
}

#[test]
fn snapshot_rehydrates_its_attachments() {
    let data = SerializedDocumentData {
        id: "copy".to_string(),
        attachments: vec![
            ("a".to_string(), ("text/plain".to_string(), vec![1, 2, 3])),
            ("b".to_string(), ("image/png".to_string(), vec![])),
        ],
        data: object(vec![("title", RawValue::text("t"))]),
    };
    assert_eq!(
        data.attachments(),
        vec![
            ("a".to_string(), Blob::from_bytes("text/plain", vec![1, 2, 3])),
            ("b".to_string(), Blob::from_bytes("image/png", vec![])),
        ]
    );
    assert_eq!(data.id(), "copy");
    assert!(!data.deleted());
    let written = serialize(&data).unwrap();
    assert_eq!(written.get("_id"), Some(&RawValue::text("copy")));
    assert_eq!(written.get("_rev"), None);
    assert_eq!(written.get("title"), Some(&RawValue::text("t")));
    match written.get("_attachments").and_then(|table| table.get("a")).and_then(|a| a.get("data")) {
        Some(RawValue::Blob(blob)) => assert_eq!(blob.content, BlobContent::Bytes(vec![1, 2, 3])),
        other => panic!("unexpected {:?}", other),
    }
}

#[test]
fn read_document_is_a_document() {
    let doc = two_attachments();
    assert_eq!(doc.id(), "doc");
    assert_eq!(doc.rev(), Some(&Revision(RawValue::text("1-a"))));
    assert_eq!(Document::serialize(&doc), Ok(doc.data.clone()));
    assert_eq!(doc.attachments(), vec![("a".to_string(), Blob::from_host("text/plain", 11))]);
    assert!(!doc.deleted());
}

#[test]
fn deserialize_takes_the_document_apart() {
    let doc = two_attachments();
    let attachments = doc.attachments.clone();
    let body = doc.data.clone();
    let (id, rev, data, parts) = doc.deserialize();
    assert_eq!(id, "doc");
    assert_eq!(rev, Some(Revision(RawValue::text("1-a"))));
    assert_eq!(data, body);
    assert_eq!(parts, attachments);
}

#[test]
fn revisions_convert_from_text_and_values() {
    assert_eq!(Revision::from("1-a"), Revision(RawValue::text("1-a")));
    assert_eq!(Revision::from(RawValue::integer(3)), Revision(RawValue::integer(3)));
    assert_eq!(Revision::from("1-a").into_string(), Some("1-a".to_string()));
    assert_eq!(Revision(RawValue::integer(3)).into_string(), None);
    assert_eq!(Revision::from("1-a").clone(), Revision::from("1-a"));
}

#[test]
fn attachment_names_are_read_once() {
    let first = Blob::from_host("text/plain", 1);
    let second = Blob::from_host("text/html", 2);
    let raw = with_attachments(vec![
        (
            "a",
            entry(vec![("digest", RawValue::text("md5-1")), ("data", RawValue::Blob(first))]),
        ),
        (
            "b",
            entry(vec![
                ("digest", RawValue::text("md5-2")),
                ("stub", RawValue::Bool(true)),
                ("content_type", RawValue::text("image/png")),
            ]),
        ),
        (
            "a",
            entry(vec![
                ("digest", RawValue::text("md5-3")),
                ("data", RawValue::Blob(second.clone())),
            ]),
        ),
    ]);
    let read = SerializedDocument::try_from(raw).unwrap();
    assert_eq!(
        read.attachments,
        vec![
            ("a".to_string(), Attachment::Data { blob: second, digest: "md5-3".to_string() }),
            (
                "b".to_string(),
                Attachment::Stub {
                    content_type: "image/png".to_string(),
                    digest: "md5-2".to_string()
                }
            ),
        ]
    );
}

#[test]
fn deleted_document_with_everything_else_is_written_as_three_members() {
    let doc = Note {
        id: "d1".to_string(),
        rev: Some(Revision::from("2-b")),
        body: Ok(object(vec![("title", RawValue::text("x"))])),
        attachments: vec![("a".to_string(), Blob::from_bytes("text/plain", vec![1]))],
        deleted: true,
    };
    assert_eq!(
        serialize(&doc).unwrap(),
        object(vec![
            ("_deleted", RawValue::Bool(true)),
            ("_id", RawValue::text("d1")),
            ("_rev", RawValue::text("2-b")),
        ])
    );
}

#[test]
fn read_document_with_a_payload_is_written_with_it() {
    let payload = Blob::from_bytes("text/plain", vec![1, 2, 3]);
    let doc = SerializedDocument {
        id: "x".to_string(),
        rev: Some(Revision::from("1-a")),
        conflicts: vec![],
        attachments: vec![(
            "a".to_string(),
            Attachment::Data { blob: payload.clone(), digest: "md5-a".to_string() },
        )],
        deleted: false,
        data: object(vec![]),
    };
    assert_eq!(
        serialize(&doc).unwrap(),
        object(vec![
            (
                "_attachments",
                object(vec![(
                    "a",
                    object(vec![
                        ("content_type", RawValue::text("text/plain")),
                        ("data", RawValue::Blob(payload)),
                    ]),
                )]),
            ),
            ("_id", RawValue::text("x")),
            ("_rev", RawValue::text("1-a")),
        ])
    );
}
