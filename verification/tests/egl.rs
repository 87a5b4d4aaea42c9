use mpvpaper::egl::{
    config_attributes, context_attributes, EglAnswer, EglError, EglRequest, EglStep, LAST_ATTEMPT,
    OPENGL_API,
};

type Step = EglStep<&'static str, u8, u64>;
type Request = EglRequest<&'static str, u8, u64>;
type Answer = EglAnswer<&'static str, u8, u64>;

/// The answer of a machine on which all goes well.
fn good(request: &Request) -> Answer {
    match request {
        EglRequest::GetDisplay => EglAnswer::Display { display: "wayland" },
        EglRequest::ChooseConfig { .. } => EglAnswer::Config { config: 7 },
        EglRequest::CreateContext { attributes, .. } => {
            let version = 10 * attributes[1] + attributes[3];
            EglAnswer::Context { context: version as u64 }
        }
        _ => EglAnswer::Done,
    }
}

/// What is asked for, in short.
fn name(request: &Request) -> &'static str {
    match request {
        EglRequest::GetDisplay => "display",
        EglRequest::Initialize { .. } => "initialize",
        EglRequest::BindApi { .. } => "bind",
        EglRequest::ChooseConfig { .. } => "config",
        EglRequest::CreateContext { .. } => "context",
        EglRequest::MakeCurrent { .. } => "current",
        EglRequest::Finish { .. } => "finish",
        EglRequest::Fail { .. } => "fail",
    }
}

/// All requests up to the end, on a machine that answers as given.
fn run(answer: impl Fn(&Request) -> Answer) -> Vec<Request> {
    let mut requests: Vec<Request> = Vec::new();
    let mut step: Step = EglStep::first();
    loop {
        let request = step.request();
        let over = matches!(request, EglRequest::Finish { .. } | EglRequest::Fail { .. });
        let next = answer(&request);
        requests.push(request);
        if over {
            return requests;
        }
        step = step.next(next);
    }
}

fn version_of(request: &Request) -> Option<(i32, i32)> {
    match request {
        EglRequest::CreateContext { attributes, .. } => Some((attributes[1], attributes[3])),
        _ => None,
    }
}

#[test]
fn attributes_are_those_of_egl() {
    assert_eq!(
        config_attributes(),
        vec![
            khronos_egl::SURFACE_TYPE,
            khronos_egl::WINDOW_BIT,
            khronos_egl::RENDERABLE_TYPE,
            khronos_egl::OPENGL_BIT,
            khronos_egl::RED_SIZE,
            8,
            khronos_egl::GREEN_SIZE,
            8,
            khronos_egl::BLUE_SIZE,
            8,
            khronos_egl::ALPHA_SIZE,
            8,
            khronos_egl::NONE,
        ]
    );
    assert_eq!(
        context_attributes(0),
        vec![
            khronos_egl::CONTEXT_MAJOR_VERSION,
            4,
            khronos_egl::CONTEXT_MINOR_VERSION,
            6,
            khronos_egl::NONE,
        ]
    );
}

#[test]
fn versions_are_tried_from_new_to_old() {
    let versions: Vec<(i32, i32)> = (0..LAST_ATTEMPT + 1)
        .map(|attempt| {
            let attributes = context_attributes(attempt);
            (attributes[1], attributes[3])
        })
        .collect();
    assert_eq!(
        versions,
        vec![
            (4, 6), (4, 5), (4, 4), (4, 3), (4, 2), (4, 1), (4, 0),
            (3, 3), (3, 2), (3, 1), (3, 0),
        ]
    );
}

#[test]
fn the_api_is_opengl() {
    assert_eq!(OPENGL_API, khronos_egl::OPENGL_API);
    let step: Step = EglStep::BindApi { display: "wayland" };
    assert!(matches!(step.request(), EglRequest::BindApi { api: 0x30a2 }));
}

#[test]
fn all_steps_are_taken() {
    let requests = run(good);
    let names: Vec<&str> = requests.iter().map(name).collect();
    assert_eq!(
        names,
        vec!["display", "initialize", "bind", "config", "context", "current", "finish"]
    );
    assert!(matches!(requests[1], EglRequest::Initialize { display: "wayland" }));
    match &requests[3] {
        EglRequest::ChooseConfig { display, attributes } => {
            assert_eq!(*display, "wayland");
            assert_eq!(*attributes, config_attributes());
        }
        _ => panic!("a configuration is chosen"),
    }
    match &requests[4] {
        EglRequest::CreateContext { display, config, shared, attributes } => {
            assert_eq!((*display, *config, *shared), ("wayland", 7, None));
            assert_eq!(*attributes, context_attributes(0));
        }
        _ => panic!("a context is created"),
    }
    assert!(matches!(
        requests[5],
        EglRequest::MakeCurrent { display: "wayland", context: 46 }
    ));
    assert!(matches!(
        requests[6],
        EglRequest::Finish { display: "wayland", config: 7, context: 46 }
    ));
}

#[test]
fn the_newest_supported_version_wins() {
    let requests = run(|request| match version_of(request) {
        Some((major, _)) if major == 4 => EglAnswer::Failed,
        _ => good(request),
    });
    let tried: Vec<(i32, i32)> = requests.iter().filter_map(version_of).collect();
    assert_eq!(
        tried,
        vec![(4, 6), (4, 5), (4, 4), (4, 3), (4, 2), (4, 1), (4, 0), (3, 3)]
    );
    assert!(matches!(
        requests[requests.len() - 1],
        EglRequest::Finish { display: "wayland", config: 7, context: 33 }
    ));
}

fn message_of(requests: &Vec<Request>) -> &str {
    match &requests[requests.len() - 1] {
        EglRequest::Fail { message } => message.as_str(),
        _ => panic!("a failure was expected"),
    }
}

#[test]
fn every_failure_has_its_message() {
    for (failing, nothing, error, message) in [
        ("display", true, EglError::Display, "Failed to get EGL display"),
        ("initialize", false, EglError::Initialize, "Failed to initialize EGL"),
        ("bind", false, EglError::BindApi, "Failed to bind OpenGL API"),
        ("config", false, EglError::ConfigQuery, "EGL config query failed"),
        ("config", true, EglError::NoConfig, "No suitable EGL config found"),
        ("context", false, EglError::NoContext, "Failed to create any EGL context"),
        ("current", false, EglError::MakeCurrent, "Failed to make EGL context current"),
    ] {
        let requests = run(|request| {
            if name(request) != failing {
                good(request)
            } else if nothing {
                EglAnswer::Nothing
            } else {
                EglAnswer::Failed
            }
        });
        assert_eq!(message_of(&requests), message);
        assert_eq!(error.message(), message);
    }
}

#[test]
fn an_answer_to_another_question_is_a_failure() {
    let step: Step = EglStep::first();
    assert_eq!(step.next(EglAnswer::Done), EglStep::Failed { error: EglError::Display });
    let step: Step = EglStep::MakeCurrent { display: "wayland", config: 1, context: 2 };
    assert_eq!(
        step.next(EglAnswer::Context { context: 3 }),
        EglStep::Failed { error: EglError::MakeCurrent }
    );
}

#[test]
fn the_end_is_the_end() {
    for answer in [EglAnswer::Done, EglAnswer::Nothing, EglAnswer::Failed] {
        let failed: Step = EglStep::Failed { error: EglError::NoConfig };
        assert_eq!(failed.next(answer), EglStep::Failed { error: EglError::NoConfig });
    }
    let ready: Step = EglStep::Ready { display: "wayland", config: 1, context: 2 };
    assert_eq!(
        ready.next(EglAnswer::Failed),
        EglStep::Ready { display: "wayland", config: 1, context: 2 }
    );
}

#[test]
fn setting_up_ends_whatever_the_answers() {
    // The longest way: every version but the last fails.
    let requests = run(|request| match version_of(request) {
        Some(version) if version != (3, 0) => EglAnswer::Failed,
        _ => good(request),
    });
    assert_eq!(requests.len() - 1, 16);
    assert!(matches!(
        requests[requests.len() - 1],
        EglRequest::Finish { display: "wayland", config: 7, context: 30 }
    ));
    assert_eq!(run(|_| EglAnswer::Failed).len() - 1, 1);
    assert_eq!(run(|_| EglAnswer::Done).len() - 1, 1);
}
