use crater::agent::api::{
    authorization, check_status, endpoint_url, record_progress, retry, to_api_response,
    user_agent, ApiError, RetryAction, RETRY_AFTER,
};
use crater::agent::{next_action, AgentAction, AgentEvent};
use crater::crates::{Crate, GitHubRepo, RegistryCrate};
use crater::results::{DatabaseDB, TestResult};
use crater::server::api_types::ApiResponse;
use crater::toolchain::Toolchain;

#[test]
fn the_status_decides_before_the_answer_is_read() {
    assert_eq!(check_status(404), Some(ApiError::InvalidEndpoint));
    assert_eq!(check_status(502), Some(ApiError::ServerUnavailable));
    assert_eq!(check_status(503), Some(ApiError::ServerUnavailable));
    assert_eq!(check_status(504), Some(ApiError::ServerUnavailable));
    assert_eq!(check_status(413), Some(ApiError::PayloadTooLarge));
    assert_eq!(check_status(200), None);
    assert_eq!(check_status(500), None);
    assert_eq!(check_status(401), None);
    assert_eq!(check_status(501), None);
}

#[test]
fn answers_are_unwrapped() {
    assert_eq!(
        to_api_response(200, Some(ApiResponse::Success { result: 7 })),
        Ok(7)
    );
    assert_eq!(
        to_api_response(503, Some(ApiResponse::Success { result: 7 })),
        Err(ApiError::ServerUnavailable)
    );
    assert_eq!(
        to_api_response::<bool>(
            500,
            Some(ApiResponse::InternalError {
                error: "boom".to_string()
            })
        ),
        Err(ApiError::InternalServerError("boom".to_string()))
    );
    assert_eq!(
        to_api_response::<bool>(401, Some(ApiResponse::Unauthorized)),
        Err(ApiError::Unauthorized)
    );
    assert_eq!(
        to_api_response::<bool>(200, Some(ApiResponse::NotFound)),
        Err(ApiError::EndpointNotFound)
    );
    assert_eq!(
        to_api_response::<bool>(200, None),
        Err(ApiError::InvalidResponse(200))
    );
    assert_eq!(
        to_api_response::<bool>(404, None),
        Err(ApiError::InvalidEndpoint)
    );
    assert_eq!(
        ApiError::InternalServerError("boom".to_string()).to_string(),
        "internal server error: boom"
    );
    assert_eq!(ApiResponse::<bool>::not_found().status_code(), 404);
    assert_eq!(ApiResponse::<bool>::unauthorized().status_code(), 401);
    assert_eq!(
        ApiResponse::<bool>::internal_error("x".to_string()).status_code(),
        500
    );
    assert_eq!(ApiResponse::Success { result: true }.status_code(), 200);
}

#[test]
fn an_unavailable_server_is_retried_until_it_answers() {
    // The server is unavailable three times, then it answers
    let statuses = [503u16, 503, 503, 200];
    let mut waited = 0;
    let mut calls = 0;
    let mut given = None;
    for status in statuses.iter() {
        calls += 1;
        let outcome = to_api_response(*status, Some(ApiResponse::Success { result: "chunk" }));
        match retry(outcome) {
            RetryAction::Done(result) => {
                given = Some(result);
                break;
            }
            RetryAction::RetryAfter(seconds) => waited += seconds,
            RetryAction::GiveUp(e) => panic!("gave up: {}", e.to_string()),
        }
    }
    assert_eq!(given, Some("chunk"));
    assert_eq!(calls, 4);
    assert_eq!(waited, 15);
    assert_eq!(RETRY_AFTER, 5);
}

#[test]
fn final_errors_are_not_retried() {
    assert_eq!(
        retry::<bool>(Err(ApiError::Transport { io: true })),
        RetryAction::RetryAfter(5)
    );
    let fatal = vec![
        ApiError::Transport { io: false },
        ApiError::InvalidEndpoint,
        ApiError::PayloadTooLarge,
        ApiError::InvalidResponse(400),
        ApiError::InternalServerError(String::new()),
        ApiError::Unauthorized,
        ApiError::EndpointNotFound,
    ];
    for error in fatal {
        assert!(!error.is_retried());
        assert!(matches!(retry::<bool>(Err(error)), RetryAction::GiveUp(_)));
    }
    assert!(ApiError::ServerUnavailable.is_retried());
}

#[test]
fn requests_are_addressed_and_signed() {
    assert_eq!(
        endpoint_url("https://crater.example.com", "next-experiment-chunk"),
        "https://crater.example.com/agent-api/next-experiment-chunk"
    );
    assert_eq!(authorization("s3cr3t"), "CraterToken s3cr3t");
    assert_eq!(user_agent(Some("abcdef0")), "crater-agent/abcdef0");
    assert_eq!(user_agent(None), "crater-agent/unknown");
}

#[test]
fn progress_travels_in_base64() {
    let krate = Crate::Registry(RegistryCrate {
        name: "lazy_static".into(),
        version: "1".into(),
    });
    let shas = vec![(
        GitHubRepo {
            org: "foo".into(),
            name: "bar".into(),
        },
        "42".to_string(),
    )];
    let data = record_progress(
        &krate,
        &Toolchain::main(),
        b"hello world",
        TestResult::TestPass,
        &shas,
    );
    assert_eq!(data.results.len(), 1);
    assert_eq!(data.results[0].log, "aGVsbG8gd29ybGQ=");
    assert_eq!(data.results[0].krate, krate);
    assert_eq!(data.results[0].toolchain, Toolchain::main());
    assert_eq!(data.results[0].result, TestResult::TestPass);
    assert_eq!(data.shas, shas);

    // What an agent sends is what the coordinator stores
    let mut db = DatabaseDB::new();
    db.store_result(&"foo".to_string(), &krate, &Toolchain::main(), TestResult::Error, vec![]);
    let ex = {
        let mut store = crater::db::Database::new();
        crater::actions::CreateExperiment::dummy("foo")
            .apply(
                &mut store,
                &crater::config::Config::default(),
                crater::time::Timestamp { secs: 0, nanos: 0 },
            )
            .unwrap();
        crater::experiments::Experiment::get(&store, "foo").unwrap()
    };
    db.store(&ex, &data).unwrap();
    assert_eq!(
        db.load_log(&ex, &Toolchain::main(), &krate),
        Some(b"hello world".to_vec())
    );
    assert_eq!(
        db.load_test_result(&ex, &Toolchain::main(), &krate),
        Some(TestResult::TestPass)
    );
}

#[test]
fn an_agent_goes_round() {
    assert!(matches!(next_action(AgentEvent::Started), AgentAction::AskForChunk));
    assert!(matches!(
        next_action(AgentEvent::NoChunk),
        AgentAction::WaitAndAsk(5)
    ));
    assert!(matches!(next_action(AgentEvent::Drained), AgentAction::Complete));
    assert!(matches!(
        next_action(AgentEvent::Acknowledged),
        AgentAction::AskForChunk
    ));
    match next_action(AgentEvent::Crashed("docker is not running".to_string())) {
        AgentAction::ReportError(error) => assert_eq!(error, "docker is not running"),
        other => panic!("unexpected action: {:?}", other),
    }
}
