//! The directory that phones ask for.

use chan_sccp::config::module::ModuleConfig;
use chan_sccp::config::rules::{CallLimits, LayerRules};
use chan_sccp::http::directory::{
    complete, records_from_config, reply, DirectoryHttpService, DirectoryPage, DirectoryPageError,
    DirectoryProvider, DirectoryProviderError, DirectoryRecord, DirectoryReply, DirectoryRequest,
    DirectoryRequestError, HttpField, HttpMethod, HttpRequest, PhoneXmlError, RefusedRecord,
    DIRECTORY_MAX_QUERY_BYTES,
    DIRECTORY_MAX_SOURCE_ENTRIES,
};

const DIRECTORY_HTTP_PATH: &str = "/sccp/directory";

struct FakeProvider(Result<Vec<DirectoryRecord>, DirectoryProviderError>);

impl DirectoryProvider for FakeProvider {
    fn records(&self) -> Result<Vec<DirectoryRecord>, DirectoryProviderError> {
        self.0.clone()
    }
}

fn request(query: Vec<HttpField>) -> HttpRequest {
    HttpRequest {
        method: HttpMethod::Get,
        route: DIRECTORY_HTTP_PATH.into(),
        path: DIRECTORY_HTTP_PATH.into(),
        remote_address: "192.0.2.10".into(),
        query,
        headers: Vec::new(),
        body: Vec::new(),
    }
}

fn records(count: usize) -> Vec<DirectoryRecord> {
    (1..=count)
        .rev()
        .map(|index| DirectoryRecord::new(&format!("Person {index:02}"), &format!("{index:04}")))
        .collect()
}

#[test]
fn form_query_decodes_search_and_applies_bounded_defaults() {
    let parsed = DirectoryRequest::parse_query(b"q=R%26D+West&page=2&pageSize=10").unwrap();
    assert_eq!(
        parsed,
        DirectoryRequest {
            search: Some("R&D West".into()),
            page: 2,
            page_size: 10,
        }
    );
    assert_eq!(
        DirectoryRequest::parse_query(b"").unwrap(),
        DirectoryRequest::default()
    );
}

#[test]
fn request_rejects_encoding_duplicates_unknowns_controls_and_numeric_bounds() {
    for query in [
        b"q=%".as_slice(),
        b"q=%GG",
        b"q=%FF",
        b"q=one&q=two",
        b"offset=1",
        b"q=line%0Ainjection",
        b"page=0",
        b"page=-1",
        b"page=999999999999999999999999999999999999999999",
        b"pageSize=33",
    ] {
        assert!(DirectoryRequest::parse_query(query).is_err(), "{query:?}");
    }
    assert!(matches!(
        DirectoryRequest::parse_query(&vec![b'q'; DIRECTORY_MAX_QUERY_BYTES + 1]),
        Err(DirectoryRequestError::QueryExceedsLimit)
    ));
    assert!(matches!(
        DirectoryRequest::parse_query(format!("q={}", "x".repeat(65)).as_bytes()),
        Err(DirectoryRequestError::InvalidSearch)
    ));
}

#[test]
fn each_fault_of_a_query_has_its_error() {
    for (query, expected) in [
        (
            b"q=%G1".as_slice(),
            DirectoryRequestError::InvalidPercentEncoding,
        ),
        (b"q=%FF", DirectoryRequestError::InvalidUtf8),
        (b"offset=1", DirectoryRequestError::UnknownParameter),
        (b"q=a&q=b", DirectoryRequestError::DuplicateParameter("q")),
        (b"page=0", DirectoryRequestError::InvalidNumber("page")),
        (b"pageSize=33", DirectoryRequestError::PageSizeExceedsLimit),
    ] {
        assert_eq!(DirectoryRequest::parse_query(query), Err(expected));
    }
}

#[test]
fn searching_ignores_the_case_of_every_alphabet() {
    let page = DirectoryPage::build(
        &vec![
            DirectoryRecord::new("ÉMILE", "1001"),
            DirectoryRecord::new("Alice", "1002"),
        ],
        &DirectoryRequest {
            search: Some("émile".into()),
            page: 1,
            page_size: 32,
        },
        &Vec::new(),
    )
    .unwrap();
    assert_eq!(page.result_count, 1);
    assert_eq!(page.document.entries[0].name, "ÉMILE");
}

#[test]
fn pagination_is_one_based_sorted_bounded_and_reports_empty_results() {
    let page = DirectoryPage::build(
        &records(35),
        &DirectoryRequest {
            search: None,
            page: 2,
            page_size: 32,
        },
        &Vec::new(),
    )
    .unwrap();
    assert_eq!(page.page_count, 2);
    assert_eq!(page.result_count, 35);
    assert_eq!(page.document.prompt, "33-35 of 35");
    assert_eq!(page.document.entries.len(), 3);
    assert_eq!(page.document.entries[0].name, "Person 33");

    let empty = DirectoryPage::build(
        &records(3),
        &DirectoryRequest {
            search: Some("nobody".into()),
            page: 1,
            page_size: 32,
        },
        &Vec::new(),
    )
    .unwrap();
    assert_eq!(empty.page_count, 1);
    assert_eq!(empty.result_count, 0);
    assert!(empty.document.entries.is_empty());
    assert_eq!(empty.document.prompt, "No matching entries");
}

#[test]
fn pagination_rejects_out_of_range_pages_source_size_and_invalid_schema_entries() {
    assert!(matches!(
        DirectoryPage::build(
            &records(1),
            &DirectoryRequest {
                search: None,
                page: 1,
                page_size: 0,
            },
            &Vec::new(),
        ),
        Err(DirectoryPageError::Request(
            DirectoryRequestError::PageSizeExceedsLimit
        ))
    ));
    assert!(matches!(
        DirectoryPage::build(
            &records(33),
            &DirectoryRequest {
                search: None,
                page: 3,
                page_size: 32,
            },
            &Vec::new(),
        ),
        Err(DirectoryPageError::PageOutOfRange { page_count: 2 })
    ));
    assert!(matches!(
        DirectoryPage::build(
            &records(DIRECTORY_MAX_SOURCE_ENTRIES + 1),
            &DirectoryRequest::default(),
            &Vec::new(),
        ),
        Err(DirectoryPageError::SourceExceedsLimit)
    ));
    let long = DirectoryRecord::new(&"x".repeat(33), "1000");
    assert!(matches!(
        DirectoryPage::build(
            &vec![long.clone()],
            &DirectoryRequest::default(),
            &vec![RefusedRecord {
                record: long,
                reason: "name exceeds 32 characters".into(),
            }],
        ),
        Err(DirectoryPageError::Xml(PhoneXmlError::InvalidField { .. }))
    ));
}

#[test]
fn http_service_serves_typed_escaped_pages_and_maps_failures_without_data_leaks() {
    let service = DirectoryHttpService::new(FakeProvider(Ok(vec![
        DirectoryRecord::new("R&D <West>", "10&01"),
        DirectoryRecord::new("Alice", "1002"),
    ])));
    let response = service.handle(&request(vec![HttpField {
        name: "q".into(),
        value: "R&D".into(),
    }]));
    let page = match response {
        DirectoryReply::Page(page) => page,
        other => panic!("no page: {other:?}"),
    };
    assert_eq!(
        page.document.entries,
        [DirectoryRecord::new("R&D <West>", "10&01")]
    );
    assert_eq!(
        complete(Some(b"<xml/>".to_vec())),
        DirectoryReply::Document {
            status: 200,
            content_type: "text/xml; charset=utf-8".into(),
            body: b"<xml/>".to_vec(),
        }
    );
    assert!(matches!(
        complete(None),
        DirectoryReply::Text { status: 500, .. }
    ));

    let response = service.handle(&request(vec![HttpField {
        name: "page".into(),
        value: "2".into(),
    }]));
    assert!(matches!(
        response,
        DirectoryReply::Text { status: 404, .. }
    ));

    let unavailable =
        DirectoryHttpService::new(FakeProvider(Err(DirectoryProviderError::Unavailable)));
    let response = unavailable.handle(&request(Vec::new()));
    assert!(matches!(
        response,
        DirectoryReply::Text { status: 503, message } if !message.contains("R&D")
    ));
}

#[test]
fn the_first_refused_entry_of_a_page_refuses_the_page() {
    let refused = vec![
        RefusedRecord {
            record: DirectoryRecord::new("Person 03", "0003"),
            reason: "third".into(),
        },
        RefusedRecord {
            record: DirectoryRecord::new("Person 02", "0002"),
            reason: "second".into(),
        },
        RefusedRecord {
            record: DirectoryRecord::new("Person 01", "0002"),
            reason: "elsewhere".into(),
        },
    ];
    let page = |page| DirectoryRequest {
        search: None,
        page,
        page_size: 1,
    };
    let error = DirectoryPage::build(&records(3), &DirectoryRequest::default(), &refused)
        .expect_err("refused");
    assert_eq!(
        error,
        DirectoryPageError::Xml(PhoneXmlError::InvalidField {
            reason: "second".into(),
        })
    );
    assert_eq!(error.message(), "second");
    let first = DirectoryPage::build(&records(3), &page(1), &refused).unwrap();
    assert_eq!(
        first.document.entries,
        [DirectoryRecord::new("Person 01", "0001")]
    );
    assert_eq!(
        reply(&page(3), Ok(records(3)), &refused),
        DirectoryReply::Text {
            status: 500,
            message: "directory response could not be generated".into(),
        }
    );
    assert_eq!(
        reply(&page(4), Ok(records(3)), &refused),
        DirectoryReply::Text {
            status: 404,
            message: "directory page is out of range".into(),
        }
    );
    assert!(matches!(
        reply(&page(1), Ok(records(3)), &refused),
        DirectoryReply::Page(_)
    ));
}

#[test]
fn only_reading_requests_are_answered() {
    let service = DirectoryHttpService::new(FakeProvider(Ok(records(1))));
    let mut asked = request(Vec::new());
    asked.method = HttpMethod::Post;
    assert!(matches!(
        service.handle(&asked),
        DirectoryReply::Text { status: 405, .. }
    ));
    let asked = request(vec![HttpField {
        name: "offset".into(),
        value: "1".into(),
    }]);
    assert!(matches!(
        service.handle(&asked),
        DirectoryReply::Text { status: 400, .. }
    ));
}

#[test]
fn configured_identity_truncation_preserves_utf8_and_xml_byte_bound() {
    let record = DirectoryRecord::from_configured_identity(&"é".repeat(40), &"9".repeat(40));
    assert_eq!(record.name.chars().count(), 32);
    assert_eq!(record.telephone.chars().count(), 32);
    let page =
        DirectoryPage::build(&vec![record], &DirectoryRequest::default(), &Vec::new()).unwrap();
    assert_eq!(page.document.entries[0].name, "é".repeat(32));
    assert_eq!(page.document.entries[0].telephone, "9".repeat(32));
}

#[test]
fn configured_lines_become_unique_logical_directory_records_with_public_identity() {
    let rules = LayerRules {
        limits: CallLimits {
            destination_bytes: 79,
            hotline_bytes: 79,
            language_bytes: 40,
            account_code_bytes: 79,
            channel_variables: 32,
            channel_variable_bytes: 4096,
            signaling_servers: 5,
        },
        refused_devices: vec!["general".into(), "1001".into(), "1002".into()],
        refused_dates: Vec::new(),
        refused_definitions: Vec::new(),
        refused_variables: Vec::new(),
        tones: Vec::new(),
    };
    let config = ModuleConfig::parse(
        r#"
[general]
bind = 127.0.0.1:2000

[1001]
type = line
label = Front desk
callerid = "Reception" <91001>

[1002]
type = line
label = Warehouse

[SEP001122334455]
type = device
button = line, 1001
button = line, 1002

[SEP001122334466]
type = device
button = line, 1001
"#,
        &rules,
    )
    .unwrap();
    let mut records = records_from_config(&config);
    records.sort_by(|left, right| left.telephone.cmp(&right.telephone));
    assert_eq!(
        records,
        [
            DirectoryRecord::new("Warehouse", "1002"),
            DirectoryRecord::new("Reception", "91001"),
        ]
    );
}
