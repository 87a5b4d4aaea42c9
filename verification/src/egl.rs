//! Setting up EGL: what is asked of it, in which order, and what each answer leads to.
use vstd::prelude::*;

verus! {

pub const ALPHA_SIZE: i32 = 0x3021;

pub const BLUE_SIZE: i32 = 0x3022;

pub const GREEN_SIZE: i32 = 0x3023;

pub const RED_SIZE: i32 = 0x3024;

pub const SURFACE_TYPE: i32 = 0x3033;

pub const NONE: i32 = 0x3038;

pub const RENDERABLE_TYPE: i32 = 0x3040;

pub const CONTEXT_MAJOR_VERSION: i32 = 0x3098;

pub const CONTEXT_MINOR_VERSION: i32 = 0x30fb;

/// The API that contexts are made for: OpenGL, not OpenGL ES.
pub const OPENGL_API: u32 = 0x30a2;

pub const WINDOW_BIT: i32 = 0x0004;

pub const OPENGL_BIT: i32 = 0x0008;

/// The last attempt at a context.
pub const LAST_ATTEMPT: usize = 10;

/// What went wrong.
#[derive(Clone, Copy, Debug, PartialEq, Eq)]
pub enum EglError {
    Display,
    Initialize,
    BindApi,
    ConfigQuery,
    NoConfig,
    NoContext,
    MakeCurrent,
}

/// How far setting up has come. `D`, `C` and `X` are the handles of a display, a configuration
/// and a context: the library keeps them and hands them back, nothing more.
#[derive(Debug, PartialEq, Eq)]
pub enum EglStep<D, C, X> {
    /// Get the display of the compositor.
    GetDisplay,
    /// Initialize that display.
    Initialize { display: D },
    /// Choose OpenGL over OpenGL ES.
    BindApi { display: D },
    /// Choose a configuration.
    ChooseConfig { display: D },
    /// Create a context with the version of OpenGL of this attempt.
    CreateContext { display: D, config: C, attempt: usize },
    /// Make the context current without a surface, so that the player can load GL functions.
    MakeCurrent { display: D, config: C, context: X },
    /// All is set up.
    Ready { display: D, config: C, context: X },
    /// The program cannot go on.
    Failed { error: EglError },
}

/// What to ask of EGL, with all that goes into the call.
pub enum EglRequest<D, C, X> {
    /// Get the display of the compositor.
    GetDisplay,
    /// Initialize the display.
    Initialize { display: D },
    /// Bind the API.
    BindApi { api: u32 },
    /// Choose the first configuration with these attributes.
    ChooseConfig { display: D, attributes: Vec<i32> },
    /// Create a context that shares its objects with `shared`, if there is one.
    CreateContext { display: D, config: C, shared: Option<X>, attributes: Vec<i32> },
    /// Make the context current without a surface to draw to or to read from.
    MakeCurrent { display: D, context: X },
    /// Ask nothing more: this is what has been set up.
    Finish { display: D, config: C, context: X },
    /// Ask nothing more: say this and end.
    Fail { message: String },
}

/// The answer of EGL.
#[derive(Debug, PartialEq, Eq)]
pub enum EglAnswer<D, C, X> {
    /// It is done, and there is no handle to tell.
    Done,
    Display { display: D },
    Config { config: C },
    Context { context: X },
    /// There was no error, and no result either.
    Nothing,
    Failed,
}

/// The versions of OpenGL that are tried, in order.
pub open spec fn gl_versions() -> Seq<(i32, i32)> {
    seq![
        (4i32, 6i32),
        (4i32, 5i32),
        (4i32, 4i32),
        (4i32, 3i32),
        (4i32, 2i32),
        (4i32, 1i32),
        (4i32, 0i32),
        (3i32, 3i32),
        (3i32, 2i32),
        (3i32, 1i32),
        (3i32, 0i32),
    ]
}

/// Setting up is over, one way or the other.
pub open spec fn is_over<D, C, X>(step: EglStep<D, C, X>) -> bool {
    step is Ready || step is Failed
}

/// The step that `answer` leads on to, if it is what `step` asks for. Each handle comes from the
/// answer that gives it, and is kept from then on.
pub open spec fn successor<D, C, X>(
    step: EglStep<D, C, X>,
    answer: EglAnswer<D, C, X>,
) -> Option<EglStep<D, C, X>> {
    match (step, answer) {
        (EglStep::GetDisplay, EglAnswer::Display { display }) => Some(
            EglStep::Initialize { display },
        ),
        (EglStep::Initialize { display }, EglAnswer::Done) => Some(EglStep::BindApi { display }),
        (EglStep::BindApi { display }, EglAnswer::Done) => Some(EglStep::ChooseConfig { display }),
        (EglStep::ChooseConfig { display }, EglAnswer::Config { config }) => Some(
            EglStep::CreateContext { display, config, attempt: 0 },
        ),
        (EglStep::CreateContext { display, config, .. }, EglAnswer::Context { context }) => Some(
            EglStep::MakeCurrent { display, config, context },
        ),
        (EglStep::MakeCurrent { display, config, context }, EglAnswer::Done) => Some(
            EglStep::Ready { display, config, context },
        ),
        _ => None,
    }
}

/// What it means that a step has not been done.
pub open spec fn failure<D, C, X>(
    step: EglStep<D, C, X>,
    answer: EglAnswer<D, C, X>,
) -> EglError {
    match step {
        EglStep::GetDisplay => EglError::Display,
        EglStep::Initialize { .. } => EglError::Initialize,
        EglStep::BindApi { .. } => EglError::BindApi,
        EglStep::ChooseConfig { .. } => if answer is Nothing {
            EglError::NoConfig
        } else {
            EglError::ConfigQuery
        },
        EglStep::CreateContext { .. } => EglError::NoContext,
        _ => EglError::MakeCurrent,
    }
}

/// What follows `step` upon `answer`: the next step, or the end. A failed attempt at a context is
/// followed by the next attempt, as long as there is one.
pub open spec fn next_step<D, C, X>(
    step: EglStep<D, C, X>,
    answer: EglAnswer<D, C, X>,
) -> EglStep<D, C, X> {
    if is_over(step) {
        step
    } else if successor(step, answer) is Some {
        successor(step, answer)->0
    } else {
        match step {
            EglStep::CreateContext { display, config, attempt } if attempt < LAST_ATTEMPT =>
                EglStep::CreateContext { display, config, attempt: (attempt + 1) as usize },
            _ => EglStep::Failed { error: failure(step, answer) },
        }
    }
}

/// The attributes of a configuration.
pub open spec fn config_attribute_list() -> Seq<i32> {
    seq![
        SURFACE_TYPE,
        WINDOW_BIT,
        RENDERABLE_TYPE,
        OPENGL_BIT,
        RED_SIZE,
        8i32,
        GREEN_SIZE,
        8i32,
        BLUE_SIZE,
        8i32,
        ALPHA_SIZE,
        8i32,
        NONE,
    ]
}

/// The attributes of a context with the given version of OpenGL.
pub open spec fn context_attribute_list(version: (i32, i32)) -> Seq<i32> {
    seq![CONTEXT_MAJOR_VERSION, version.0, CONTEXT_MINOR_VERSION, version.1, NONE]
}

/// `request` is what `step` asks of EGL.
pub open spec fn is_request_of<D, C, X>(
    request: EglRequest<D, C, X>,
    step: EglStep<D, C, X>,
) -> bool {
    match step {
        EglStep::GetDisplay => request is GetDisplay,
        EglStep::Initialize { display } => request == (EglRequest::<D, C, X>::Initialize {
            display,
        }),
        EglStep::BindApi { .. } => request == (EglRequest::<D, C, X>::BindApi { api: OPENGL_API }),
        EglStep::ChooseConfig { display: d } => {
            &&& request matches EglRequest::ChooseConfig { display, attributes }
            &&& display == d
            &&& attributes@ == config_attribute_list()
        },
        EglStep::CreateContext { display: d, config: c, attempt } => {
            &&& request matches EglRequest::CreateContext { display, config, shared, attributes }
            &&& display == d
            &&& config == c
            &&& shared is None
            &&& attributes@ == context_attribute_list(gl_versions()[attempt as int])
        },
        EglStep::MakeCurrent { display, context, .. } => request == (EglRequest::<
            D,
            C,
            X,
        >::MakeCurrent { display, context }),
        EglStep::Ready { display, config, context } => request == (EglRequest::<
            D,
            C,
            X,
        >::Finish { display, config, context }),
        EglStep::Failed { error } => request matches EglRequest::Fail { message } && message@
            == error_text(error),
    }
}

/// What is said of an error.
pub open spec fn error_text(error: EglError) -> Seq<char> {
    match error {
        EglError::Display => "Failed to get EGL display"@,
        EglError::Initialize => "Failed to initialize EGL"@,
        EglError::BindApi => "Failed to bind OpenGL API"@,
        EglError::ConfigQuery => "EGL config query failed"@,
        EglError::NoConfig => "No suitable EGL config found"@,
        EglError::NoContext => "Failed to create any EGL context"@,
        EglError::MakeCurrent => "Failed to make EGL context current"@,
    }
}

/// The attributes of a configuration: windows, OpenGL, and eight bits for each channel.
pub fn config_attributes() -> (attributes: Vec<i32>)
    ensures
        attributes@ == config_attribute_list(),
{
    vec![
        SURFACE_TYPE,
        WINDOW_BIT,
        RENDERABLE_TYPE,
        OPENGL_BIT,
        RED_SIZE,
        8,
        GREEN_SIZE,
        8,
        BLUE_SIZE,
        8,
        ALPHA_SIZE,
        8,
        NONE,
    ]
}

/// The attributes of a context: the version of OpenGL that this attempt asks for.
pub fn context_attributes(attempt: usize) -> (attributes: Vec<i32>)
    requires
        attempt <= LAST_ATTEMPT,
    ensures
        attributes@ == context_attribute_list(gl_versions()[attempt as int]),
{
    let versions: Vec<(i32, i32)> = vec![
        (4, 6), (4, 5), (4, 4), (4, 3), (4, 2), (4, 1), (4, 0),
        (3, 3), (3, 2), (3, 1), (3, 0),
    ];
    assert(versions@ =~= gl_versions());
    let (major, minor): (i32, i32) = versions[attempt];
    vec![CONTEXT_MAJOR_VERSION, major, CONTEXT_MINOR_VERSION, minor, NONE]
}

impl<D, C, X> EglStep<D, C, X> {
    /// Where setting up begins.
    pub fn first() -> (step: Self)
        ensures
            step == EglStep::<D, C, X>::GetDisplay,
    {
        EglStep::GetDisplay
    }

    /// What follows, given the answer to this step.
    pub fn next(self, answer: EglAnswer<D, C, X>) -> (step: Self)
        ensures
            step == next_step(self, answer),
    {
        match self {
            EglStep::GetDisplay => match answer {
                EglAnswer::Display { display } => EglStep::Initialize { display },
                _ => EglStep::Failed { error: EglError::Display },
            },
            EglStep::Initialize { display } => match answer {
                EglAnswer::Done => EglStep::BindApi { display },
                _ => EglStep::Failed { error: EglError::Initialize },
            },
            EglStep::BindApi { display } => match answer {
                EglAnswer::Done => EglStep::ChooseConfig { display },
                _ => EglStep::Failed { error: EglError::BindApi },
            },
            EglStep::ChooseConfig { display } => match answer {
                EglAnswer::Config { config } => {
                    EglStep::CreateContext { display, config, attempt: 0 }
                },
                EglAnswer::Nothing => EglStep::Failed { error: EglError::NoConfig },
                _ => EglStep::Failed { error: EglError::ConfigQuery },
            },
            EglStep::CreateContext { display, config, attempt } => match answer {
                EglAnswer::Context { context } => EglStep::MakeCurrent { display, config, context },
                _ => if attempt < LAST_ATTEMPT {
                    EglStep::CreateContext { display, config, attempt: attempt + 1 }
                } else {
                    EglStep::Failed { error: EglError::NoContext }
                },
            },
            EglStep::MakeCurrent { display, config, context } => match answer {
                EglAnswer::Done => EglStep::Ready { display, config, context },
                _ => EglStep::Failed { error: EglError::MakeCurrent },
            },
            EglStep::Ready { display, config, context } => {
                EglStep::Ready { display, config, context }
            },
            EglStep::Failed { error } => EglStep::Failed { error },
        }
    }
}

impl<D: Copy, C: Copy, X: Copy> EglStep<D, C, X> {
    /// What this step asks of EGL.
    pub fn request(&self) -> (request: EglRequest<D, C, X>)
        requires
            in_range(*self),
        ensures
            is_request_of(request, *self),
    {
        match self {
            EglStep::GetDisplay => EglRequest::GetDisplay,
            EglStep::Initialize { display } => EglRequest::Initialize { display: *display },
            EglStep::BindApi { .. } => EglRequest::BindApi { api: OPENGL_API },
            EglStep::ChooseConfig { display } => EglRequest::ChooseConfig {
                display: *display,
                attributes: config_attributes(),
            },
            EglStep::CreateContext { display, config, attempt } => EglRequest::CreateContext {
                display: *display,
                config: *config,
                shared: None,
                attributes: context_attributes(*attempt),
            },
            EglStep::MakeCurrent { display, context, .. } => EglRequest::MakeCurrent {
                display: *display,
                context: *context,
            },
            EglStep::Ready { display, config, context } => EglRequest::Finish {
                display: *display,
                config: *config,
                context: *context,
            },
            EglStep::Failed { error } => EglRequest::Fail { message: error.message() },
        }
    }
}

impl EglError {
    /// What is said of the error.
    pub fn message(self) -> (message: String)
        ensures
            message@ == error_text(self),
    {
        match self {
            EglError::Display => "Failed to get EGL display".to_owned(),
            EglError::Initialize => "Failed to initialize EGL".to_owned(),
            EglError::BindApi => "Failed to bind OpenGL API".to_owned(),
            EglError::ConfigQuery => "EGL config query failed".to_owned(),
            EglError::NoConfig => "No suitable EGL config found".to_owned(),
            EglError::NoContext => "Failed to create any EGL context".to_owned(),
            EglError::MakeCurrent => "Failed to make EGL context current".to_owned(),
        }
    }
}

/// The answer to an attempt at a context, on a machine that supports the given versions.
pub open spec fn context_answer<D, C, X>(
    supported: spec_fn((i32, i32)) -> bool,
    attempt: usize,
    context: X,
) -> EglAnswer<D, C, X> {
    if supported(gl_versions()[attempt as int]) {
        EglAnswer::Context { context }
    } else {
        EglAnswer::Failed
    }
}

/// The attempt that yields a context, starting with `attempt`, on such a machine.
pub open spec fn successful_attempt<D, C, X>(
    supported: spec_fn((i32, i32)) -> bool,
    display: D,
    config: C,
    attempt: usize,
    context: X,
) -> Option<usize>
    decreases LAST_ATTEMPT + 1 - attempt,
{
    if attempt > LAST_ATTEMPT {
        None
    } else {
        match next_step(
            EglStep::CreateContext { display, config, attempt },
            context_answer(supported, attempt, context),
        ) {
            EglStep::MakeCurrent { .. } => Some(attempt),
            EglStep::CreateContext { attempt: later, .. } => successful_attempt(
                supported,
                display,
                config,
                later,
                context,
            ),
            _ => None,
        }
    }
}

/// `a` is a newer version of OpenGL than `b`.
pub open spec fn newer(a: (i32, i32), b: (i32, i32)) -> bool {
    a.0 > b.0 || (a.0 == b.0 && a.1 > b.1)
}

/// Versions of OpenGL are tried from the newest to the oldest.
pub proof fn law_newest_first(i: int, j: int)
    requires
        0 <= i < j <= LAST_ATTEMPT,
    ensures
        newer(gl_versions()[i], gl_versions()[j]),
{
}

/// The context is of the newest version that the machine supports among those that are tried,
/// and there is one if it supports any of them.
pub proof fn law_newest_supported_version_wins<D, C, X>(
    supported: spec_fn((i32, i32)) -> bool,
    display: D,
    config: C,
    context: X,
)
    ensures
        match successful_attempt(supported, display, config, 0, context) {
            Some(k) => {
                &&& k <= LAST_ATTEMPT
                &&& supported(gl_versions()[k as int])
                &&& forall|j: int|
                    0 <= j <= LAST_ATTEMPT && supported(#[trigger] gl_versions()[j]) && j != k
                        ==> newer(gl_versions()[k as int], gl_versions()[j])
            },
            None => forall|j: int|
                0 <= j <= LAST_ATTEMPT ==> !supported(#[trigger] gl_versions()[j]),
        },
{
    lemma_first_supported(supported, display, config, 0, context);
    if let Some(k) = successful_attempt(supported, display, config, 0, context) {
        let best = gl_versions()[k as int];
        assert forall|j: int|
            0 <= j <= LAST_ATTEMPT && supported(#[trigger] gl_versions()[j]) && j
                != k implies newer(best, gl_versions()[j]) by {
            law_newest_first(k as int, j);
        }
    }
}

/// The search stops at the first attempt that is supported.
proof fn lemma_first_supported<D, C, X>(
    supported: spec_fn((i32, i32)) -> bool,
    display: D,
    config: C,
    attempt: usize,
    context: X,
)
    requires
        attempt <= LAST_ATTEMPT,
    ensures
        match successful_attempt(supported, display, config, attempt, context) {
            Some(k) => {
                &&& attempt <= k <= LAST_ATTEMPT
                &&& supported(gl_versions()[k as int])
                &&& forall|j: int| attempt <= j < k ==> !supported(#[trigger] gl_versions()[j])
            },
            None => forall|j: int|
                attempt <= j <= LAST_ATTEMPT ==> !supported(#[trigger] gl_versions()[j]),
        },
    decreases LAST_ATTEMPT - attempt,
{
    if !supported(gl_versions()[attempt as int]) && attempt < LAST_ATTEMPT {
        lemma_first_supported(supported, display, config, (attempt + 1) as usize, context);
    }
}

/// A step that can be taken: attempts at a context stay within the versions that there are.
pub open spec fn in_range<D, C, X>(step: EglStep<D, C, X>) -> bool {
    step matches EglStep::CreateContext { attempt, .. } ==> attempt <= LAST_ATTEMPT
}

/// How many more answers it takes at most.
pub open spec fn answers_left<D, C, X>(step: EglStep<D, C, X>) -> nat {
    match step {
        EglStep::GetDisplay => (LAST_ATTEMPT + 6) as nat,
        EglStep::Initialize { .. } => (LAST_ATTEMPT + 5) as nat,
        EglStep::BindApi { .. } => (LAST_ATTEMPT + 4) as nat,
        EglStep::ChooseConfig { .. } => (LAST_ATTEMPT + 3) as nat,
        EglStep::CreateContext { attempt, .. } => (LAST_ATTEMPT + 2 - attempt) as nat,
        EglStep::MakeCurrent { .. } => 1,
        EglStep::Ready { .. } => 0,
        EglStep::Failed { .. } => 0,
    }
}

/// The step after all answers, starting with `step`.
pub open spec fn step_after<D, C, X>(
    step: EglStep<D, C, X>,
    answers: Seq<EglAnswer<D, C, X>>,
) -> EglStep<D, C, X>
    decreases answers.len(),
{
    if answers.len() == 0 {
        step
    } else {
        next_step(step_after(step, answers.drop_last()), answers.last())
    }
}

/// Every answer brings the end nearer, and no attempt goes beyond the last.
pub proof fn law_every_answer_counts<D, C, X>(
    step: EglStep<D, C, X>,
    answer: EglAnswer<D, C, X>,
)
    requires
        in_range(step),
    ensures
        in_range(next_step(step, answer)),
        answers_left(step) == 0 <==> is_over(step),
        !is_over(step) ==> answers_left(next_step(step, answer)) < answers_left(step),
        is_over(step) ==> next_step(step, answer) == step,
{
}

/// Setting up ends, whatever EGL answers, after at most as many answers as `answers_left` says of
/// the step that it starts with: for the first step, one for each of the five other steps and one
/// for each version of OpenGL. Until then every step can be taken.
pub proof fn law_setup_ends<D, C, X>(
    step: EglStep<D, C, X>,
    answers: Seq<EglAnswer<D, C, X>>,
)
    requires
        in_range(step),
    ensures
        in_range(step_after(step, answers)),
        answers.len() >= answers_left(step) ==> is_over(step_after(step, answers)),
        is_over(step_after(step, answers)) || answers_left(step_after(step, answers))
            + answers.len() <= answers_left(step),
        answers_left(EglStep::<D, C, X>::GetDisplay) == 5 + gl_versions().len(),
    decreases answers.len(),
{
    if answers.len() > 0 {
        law_setup_ends(step, answers.drop_last());
        law_every_answer_counts(step_after(step, answers.drop_last()), answers.last());
    }
    law_every_answer_counts(step_after(step, answers), EglAnswer::Done);
}

/// The first answers give this display, allow OpenGL, and give this configuration.
pub open spec fn prepared<D, C, X>(
    answers: Seq<EglAnswer<D, C, X>>,
    display: D,
    config: C,
) -> bool {
    &&& 4 <= answers.len()
    &&& answers[0] == (EglAnswer::<D, C, X>::Display { display })
    &&& answers[1] is Done
    &&& answers[2] is Done
    &&& answers[3] == (EglAnswer::<D, C, X>::Config { config })
}

/// The attempt with this number is the first to give a context, and this is the one.
pub open spec fn first_context<D, C, X>(
    answers: Seq<EglAnswer<D, C, X>>,
    attempt: int,
    context: X,
) -> bool {
    &&& 0 <= attempt <= LAST_ATTEMPT
    &&& 4 + attempt < answers.len()
    &&& answers[4 + attempt] == (EglAnswer::<D, C, X>::Context { context })
    &&& forall|j: int| 4 <= j < 4 + attempt ==> !(#[trigger] answers[j] is Context)
}

/// That context has been made current.
pub open spec fn current_context<D, C, X>(
    answers: Seq<EglAnswer<D, C, X>>,
    attempt: int,
    context: X,
) -> bool {
    &&& first_context(answers, attempt, context)
    &&& 5 + attempt < answers.len()
    &&& answers[5 + attempt] is Done
}

/// Some attempt has given this context, and it has been made current.
pub open spec fn gives_context<D, C, X>(answers: Seq<EglAnswer<D, C, X>>, context: X) -> bool {
    exists|attempt: int| current_context(answers, attempt, context)
}

/// What the answers so far have to do with the step that they have led to.
spec fn accounts_for<D, C, X>(
    answers: Seq<EglAnswer<D, C, X>>,
    step: EglStep<D, C, X>,
) -> bool {
    match step {
        EglStep::GetDisplay => answers.len() == 0,
        EglStep::Initialize { display } => {
            &&& answers.len() == 1
            &&& answers[0] == (EglAnswer::<D, C, X>::Display { display })
        },
        EglStep::BindApi { display } => {
            &&& answers.len() == 2
            &&& answers[0] == (EglAnswer::<D, C, X>::Display { display })
            &&& answers[1] is Done
        },
        EglStep::ChooseConfig { display } => {
            &&& answers.len() == 3
            &&& answers[0] == (EglAnswer::<D, C, X>::Display { display })
            &&& answers[1] is Done
            &&& answers[2] is Done
        },
        EglStep::CreateContext { display, config, attempt } => {
            &&& attempt <= LAST_ATTEMPT
            &&& answers.len() == 4 + attempt
            &&& prepared(answers, display, config)
            &&& forall|j: int| 4 <= j < 4 + attempt ==> !(#[trigger] answers[j] is Context)
        },
        EglStep::MakeCurrent { display, config, context } => {
            &&& prepared(answers, display, config)
            &&& first_context(answers, answers.len() - 5, context)
        },
        EglStep::Ready { display, config, context } => {
            &&& prepared(answers, display, config)
            &&& gives_context(answers, context)
        },
        EglStep::Failed { .. } => true,
    }
}

/// More answers leave the account of the context as it is.
proof fn lemma_first_context_stays<D, C, X>(
    answers: Seq<EglAnswer<D, C, X>>,
    attempt: int,
    context: X,
)
    requires
        answers.len() > 0,
        first_context(answers.drop_last(), attempt, context),
    ensures
        first_context(answers, attempt, context),
{
    let front = answers.drop_last();
    assert forall|j: int| 4 <= j < 4 + attempt implies !(#[trigger] answers[j] is Context) by {
        assert(front[j] == answers[j]);
    }
}

/// The answers account for the step that they lead to.
proof fn lemma_answers_account<D, C, X>(answers: Seq<EglAnswer<D, C, X>>)
    ensures
        accounts_for(answers, step_after(EglStep::GetDisplay, answers)),
    decreases answers.len(),
{
    if answers.len() > 0 {
        let front = answers.drop_last();
        let before = step_after(EglStep::GetDisplay, front);
        lemma_answers_account(front);
        let after = step_after(EglStep::GetDisplay, answers);
        assert(after == next_step(before, answers.last()));
        assert(front.len() > 0 ==> front[0] == answers[0]);
        assert(front.len() > 1 ==> front[1] == answers[1]);
        assert(front.len() > 2 ==> front[2] == answers[2]);
        assert(front.len() > 3 ==> front[3] == answers[3]);
        match before {
            EglStep::CreateContext { attempt, .. } => {
                assert forall|j: int| 4 <= j < 4 + attempt implies !(
                #[trigger] answers[j] is Context) by {
                    assert(front[j] == answers[j]);
                }
                assert(answers[4 + attempt] == answers.last());
                if let EglAnswer::Context { context } = answers.last() {
                    assert(first_context(answers, attempt as int, context));
                }
                assert(accounts_for(answers, after));
            },
            EglStep::MakeCurrent { context, .. } => {
                let attempt = front.len() - 5;
                lemma_first_context_stays(answers, attempt, context);
                if answers.last() is Done {
                    assert(current_context(answers, attempt, context));
                }
                assert(accounts_for(answers, after));
            },
            EglStep::Ready { context, .. } => {
                let attempt = choose|attempt: int| current_context(front, attempt, context);
                lemma_first_context_stays(answers, attempt, context);
                assert(answers[5 + attempt] == front[5 + attempt]);
                assert(current_context(answers, attempt, context));
                assert(accounts_for(answers, after));
            },
            _ => {
                assert(accounts_for(answers, after));
            },
        }
    }
}

/// What is set up in the end is what EGL gave: the display of the first answer, initialized and
/// bound to the API, the configuration that was chosen on it, and the context of the first attempt
/// that gave one, made current.
pub proof fn law_ready_with_what_egl_gave<D, C, X>(
    answers: Seq<EglAnswer<D, C, X>>,
    display: D,
    config: C,
    context: X,
)
    requires
        step_after(EglStep::GetDisplay, answers) == (EglStep::<D, C, X>::Ready {
            display,
            config,
            context,
        }),
    ensures
        prepared(answers, display, config),
        gives_context(answers, context),
{
    lemma_answers_account(answers);
}

/// A call of `first` begins with the display.
pub proof fn law_the_display_comes_first<D, C, X>(step: EglStep<D, C, X>)
    requires
        call_ensures(EglStep::<D, C, X>::first, (), step),
    ensures
        step is GetDisplay,
{
}

/// A call of `next` leads on with the answer that the step asks for: the handle of the answer is
/// taken in, the handles of the step are kept, and attempts at a context start with the first.
pub proof fn law_right_answers_lead_on<D, C, X>(
    step: EglStep<D, C, X>,
    answer: EglAnswer<D, C, X>,
    next: EglStep<D, C, X>,
)
    requires
        call_ensures(EglStep::<D, C, X>::next, (step, answer), next),
    ensures
        step is GetDisplay ==> (answer matches EglAnswer::Display { display: d } ==> (next matches
            EglStep::Initialize { display } && display == d)),
        answer is Done ==> (step matches EglStep::Initialize { display: d } ==> (next matches
            EglStep::BindApi { display } && display == d)),
        answer is Done ==> (step matches EglStep::BindApi { display: d } ==> (next matches
            EglStep::ChooseConfig { display } && display == d)),
        answer matches EglAnswer::Config { config: c } ==> (step matches EglStep::ChooseConfig {
            display: d,
        } ==> (next matches EglStep::CreateContext { display, config, attempt } && display == d
            && config == c && attempt == 0)),
        answer matches EglAnswer::Context { context: x } ==> (step matches EglStep::CreateContext {
            display: d,
            config: c,
            attempt,
        } ==> (next matches EglStep::MakeCurrent { display, config, context } && display == d
            && config == c && context == x)),
        answer is Done ==> (step matches EglStep::MakeCurrent {
            display: d,
            config: c,
            context: x,
        } ==> (next matches EglStep::Ready { display, config, context } && display == d && config
            == c && context == x)),
{
}

/// On any other answer, a call of `next` ends with the error of the step that it was the answer to;
/// of configurations it is told apart that there was none and that the query failed. Only a refused
/// context is followed by the next attempt, ten times, with the same display and configuration.
pub proof fn law_wrong_answers_have_their_error<D, C, X>(
    step: EglStep<D, C, X>,
    answer: EglAnswer<D, C, X>,
    next: EglStep<D, C, X>,
)
    requires
        call_ensures(EglStep::<D, C, X>::next, (step, answer), next),
    ensures
        step is GetDisplay && !(answer is Display) ==> (next matches EglStep::Failed { error }
            && error is Display),
        step is Initialize && !(answer is Done) ==> (next matches EglStep::Failed { error }
            && error is Initialize),
        step is BindApi && !(answer is Done) ==> (next matches EglStep::Failed { error }
            && error is BindApi),
        step is ChooseConfig && answer is Nothing ==> (next matches EglStep::Failed { error }
            && error is NoConfig),
        step is ChooseConfig && !(answer is Nothing) && !(answer is Config) ==> (next matches
            EglStep::Failed { error } && error is ConfigQuery),
        !(answer is Context) ==> (step matches EglStep::CreateContext {
            display: d,
            config: c,
            attempt: a,
        } ==> {
            &&& a < 10 ==> (next matches EglStep::CreateContext { display, config, attempt }
                && display == d && config == c && attempt == a + 1)
            &&& a >= 10 ==> (next matches EglStep::Failed { error } && error is NoContext)
        }),
        step is MakeCurrent && !(answer is Done) ==> (next matches EglStep::Failed { error }
            && error is MakeCurrent),
        step is Ready || step is Failed ==> next == step,
{
}

/// A call of `request` hands EGL the handles of the step, OpenGL as the API, the attributes that
/// `config_attributes` and `context_attributes` give, and no context to share with.
pub proof fn law_requests_carry_the_handles<D: Copy, C: Copy, X: Copy>(
    step: &EglStep<D, C, X>,
    request: EglRequest<D, C, X>,
    config_list: Vec<i32>,
    context_list: Vec<i32>,
    text: String,
)
    requires
        call_ensures(EglStep::<D, C, X>::request, (step,), request),
        call_ensures(config_attributes, (), config_list),
        *step matches EglStep::CreateContext { attempt, .. } ==> call_ensures(
            context_attributes,
            (attempt,),
            context_list,
        ),
        *step matches EglStep::Failed { error } ==> call_ensures(
            EglError::message,
            (error,),
            text,
        ),
    ensures
        step is GetDisplay ==> request is GetDisplay,
        *step matches EglStep::Initialize { display: d } ==> (request matches
            EglRequest::Initialize { display } && display == d),
        step is BindApi ==> (request matches EglRequest::BindApi { api } && api == 0x30a2),
        *step matches EglStep::ChooseConfig { display: d } ==> (request matches
            EglRequest::ChooseConfig { display, attributes } && display == d && attributes@
            == config_list@),
        *step matches EglStep::CreateContext { display: d, config: c, attempt } ==> (request matches
            EglRequest::CreateContext { display, config, shared, attributes } && display == d
            && config == c && shared is None && attributes@ == context_list@),
        *step matches EglStep::MakeCurrent { display: d, config, context: x } ==> (request matches
            EglRequest::MakeCurrent { display, context } && display == d && context == x),
        *step matches EglStep::Ready { display: d, config: c, context: x } ==> (request matches
            EglRequest::Finish { display, config, context } && display == d && config == c
            && context == x),
        step is Failed ==> (request matches EglRequest::Fail { message } && message@ == text@),
{
}

/// The value that a list of attributes gives a key: lists hold keys and values in turn, and end
/// with the key that stands for nothing.
pub open spec fn value_of(attributes: Seq<i32>, key: i32) -> Option<i32>
    decreases attributes.len(),
{
    if attributes.len() < 2 || attributes[0] == 0x3038 {
        None
    } else if attributes[0] == key {
        Some(attributes[1])
    } else {
        value_of(attributes.skip(2), key)
    }
}

/// A call of `config_attributes` asks for windows, OpenGL and eight bits for each of the four
/// channels, and for nothing else.
pub proof fn law_configuration_has_eight_bits(attributes: Vec<i32>, key: i32)
    requires
        call_ensures(config_attributes, (), attributes),
    ensures
        value_of(attributes@, key) == if key == 0x3033 {
            Some(4i32)
        } else if key == 0x3040 {
            Some(8i32)
        } else if key == 0x3021 || key == 0x3022 || key == 0x3023 || key == 0x3024 {
            Some(8i32)
        } else {
            None
        },
        attributes@.len() == 13,
        attributes@.last() == 0x3038,
{
    reveal_with_fuel(value_of, 7);
    let list = attributes@;
    assert(list.skip(2).skip(2) =~= list.skip(4));
    assert(list.skip(4).skip(2) =~= list.skip(6));
    assert(list.skip(6).skip(2) =~= list.skip(8));
    assert(list.skip(8).skip(2) =~= list.skip(10));
    assert(list.skip(10).skip(2) =~= list.skip(12));
}

/// The attempts from the first to the last ask for OpenGL 4.6 down to 4.0, and then for 3.3 down to
/// 3.0, each for one version and for nothing else.
pub proof fn law_attempts_go_through_the_versions(
    attempt: usize,
    attributes: Vec<i32>,
    major: i32,
    minor: i32,
)
    requires
        attempt <= 10,
        call_ensures(context_attributes, (attempt,), attributes),
        attempt <= 6 ==> major == 4 && minor == 6 - attempt,
        attempt > 6 ==> major == 3 && minor == 10 - attempt,
    ensures
        attributes@.len() == 5,
        value_of(attributes@, 0x3098) == Some(major),
        value_of(attributes@, 0x30fb) == Some(minor),
        attributes@.last() == 0x3038,
{
    reveal_with_fuel(value_of, 3);
    assert(attributes@.skip(2).skip(2) =~= attributes@.skip(4));
}

/// Each error has a text of its own.
pub proof fn law_errors_are_told_apart(
    a: EglError,
    b: EglError,
    text_a: String,
    text_b: String,
)
    requires
        call_ensures(EglError::message, (a,), text_a),
        call_ensures(EglError::message, (b,), text_b),
    ensures
        text_a@ == text_b@ <==> a == b,
        a is Display ==> text_a@ == "Failed to get EGL display"@,
        a is Initialize ==> text_a@ == "Failed to initialize EGL"@,
        a is BindApi ==> text_a@ == "Failed to bind OpenGL API"@,
        a is ConfigQuery ==> text_a@ == "EGL config query failed"@,
        a is NoConfig ==> text_a@ == "No suitable EGL config found"@,
        a is NoContext ==> text_a@ == "Failed to create any EGL context"@,
        a is MakeCurrent ==> text_a@ == "Failed to make EGL context current"@,
{
    reveal_strlit("Failed to get EGL display");
    reveal_strlit("Failed to initialize EGL");
    reveal_strlit("Failed to bind OpenGL API");
    reveal_strlit("EGL config query failed");
    reveal_strlit("No suitable EGL config found");
    reveal_strlit("Failed to create any EGL context");
    reveal_strlit("Failed to make EGL context current");
    assert("Failed to get EGL display"@[10] == 'g' && "Failed to get EGL display"@.len() == 25);
    assert("Failed to bind OpenGL API"@[10] == 'b' && "Failed to bind OpenGL API"@.len() == 25);
    assert("Failed to initialize EGL"@.len() == 24);
    assert("EGL config query failed"@.len() == 23);
    assert("No suitable EGL config found"@.len() == 28);
    assert("Failed to create any EGL context"@.len() == 32);
    assert("Failed to make EGL context current"@.len() == 34);
}

} // verus!
