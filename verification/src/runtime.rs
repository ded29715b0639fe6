//! The runtime state: which backend answers, and how prompts are routed.
use vstd::prelude::*;

use crate::provider::{PROVIDER, PROVIDER_DIR, PROVIDER_STATE_DIR};
use crate::session::{state_path, state_path_for};
use crate::text::{concat2, concat3, copy_text, decimal_text, lower, parse_number, push_text, same_text, trim};
use crate::text::{decimal, lower_text, opt_text, parsed_number, trimmed};
use crate::workspace::opt_str_text;

verus! {

pub const DEBUG_STREAM_DELAY_ENV: &'static str = "DEEPSEEK_DEBUG_STREAM_DELAY_MS";

#[derive(Debug, Clone, Copy, PartialEq, Eq, Structural)]
pub enum RuntimeBackend {
    Provider,
    Debug,
}

/// The backend that a word stands for.
pub open spec fn backend_named(value: Seq<char>) -> Option<RuntimeBackend> {
    let w = lower_text(trimmed(value));
    if w == "provider"@ || w == "off"@ || w == PROVIDER_DIR@ {
        Some(RuntimeBackend::Provider)
    } else if w == "debug"@ || w == "debug-manual"@ || w == "manual"@ || w == "on"@ {
        Some(RuntimeBackend::Debug)
    } else {
        None
    }
}

pub open spec fn other_backend(b: RuntimeBackend) -> RuntimeBackend {
    match b {
        RuntimeBackend::Provider => RuntimeBackend::Debug,
        RuntimeBackend::Debug => RuntimeBackend::Provider,
    }
}

impl RuntimeBackend {
    pub fn parse(value: &str) -> (r: Option<RuntimeBackend>)
        ensures
            r == backend_named(value@),
    {
        let word = lower(trim(value).as_str());
        let w = word.as_str();
        if same_text(w, "provider") || same_text(w, "off") || same_text(w, PROVIDER_DIR) {
            Some(RuntimeBackend::Provider)
        } else if same_text(w, "debug") || same_text(w, "debug-manual") || same_text(w, "manual")
            || same_text(w, "on") {
            Some(RuntimeBackend::Debug)
        } else {
            None
        }
    }

    pub fn toggled(self) -> (r: RuntimeBackend)
        ensures
            r == other_backend(self),
    {
        match self {
            RuntimeBackend::Provider => RuntimeBackend::Debug,
            RuntimeBackend::Debug => RuntimeBackend::Provider,
        }
    }
}

/// Toggling the backend twice leaves it as it was.
pub proof fn law_toggling_twice_changes_nothing(b: RuntimeBackend)
    ensures
        other_backend(other_backend(b)) == b,
        other_backend(b) != b,
{
}

#[derive(Debug)]
pub struct RuntimeState {
    pub backend: RuntimeBackend,
    pub runtime: String,
    pub model: Option<String>,
    pub updated_at: u64,
    pub legacy_routing: bool,
    pub search_provider: Option<String>,
}

#[verifier::ext_equal]
pub struct RuntimeView {
    pub backend: RuntimeBackend,
    pub runtime: Seq<char>,
    pub model: Option<Seq<char>>,
    pub updated_at: u64,
    pub legacy_routing: bool,
    pub search_provider: Option<Seq<char>>,
}

/// The state before anything was set.
pub open spec fn fresh_runtime(model: Option<Seq<char>>, now: u64) -> RuntimeView {
    RuntimeView {
        backend: RuntimeBackend::Provider,
        runtime: "terminal"@,
        model,
        updated_at: now,
        legacy_routing: false,
        search_provider: None,
    }
}

/// The model that is in use.
pub open spec fn model_or(model: Option<Seq<char>>, fallback: Seq<char>) -> Seq<char> {
    match model {
        Some(m) => m,
        None => fallback,
    }
}

/// The model as the prompt shows it.
pub open spec fn runtime_label(state: RuntimeView, fallback: Seq<char>) -> Seq<char> {
    match state.backend {
        RuntimeBackend::Provider => model_or(state.model, fallback),
        RuntimeBackend::Debug => "debug:"@ + model_or(state.model, fallback),
    }
}

fn model_text(model: &Option<String>, fallback: &str) -> (r: String)
    ensures
        r@ == model_or(opt_text(*model), fallback@),
{
    match model {
        Some(m) => copy_text(m.as_str()),
        None => copy_text(fallback),
    }
}

impl View for RuntimeState {
    type V = RuntimeView;

    open spec fn view(&self) -> RuntimeView {
        RuntimeView {
            backend: self.backend,
            runtime: self.runtime@,
            model: opt_text(self.model),
            updated_at: self.updated_at,
            legacy_routing: self.legacy_routing,
            search_provider: opt_text(self.search_provider),
        }
    }
}

impl RuntimeState {
    /// The state before anything was set; `now` is the time in seconds.
    pub fn provider(model: Option<String>, now: u64) -> (r: RuntimeState)
        ensures
            r@ == fresh_runtime(opt_text(model), now),
    {
        RuntimeState {
            backend: RuntimeBackend::Provider,
            runtime: copy_text("terminal"),
            model,
            updated_at: now,
            legacy_routing: false,
            search_provider: None,
        }
    }

    pub fn with_backend(self, backend: RuntimeBackend, now: u64) -> (r: RuntimeState)
        ensures
            r@ == (RuntimeView { backend, updated_at: now, ..self@ }),
    {
        let mut next = self;
        next.backend = backend;
        next.updated_at = now;
        next
    }

    pub fn with_model(self, model: &str, now: u64) -> (r: RuntimeState)
        ensures
            r@ == (RuntimeView { model: Some(model@), updated_at: now, ..self@ }),
    {
        let mut next = self;
        next.model = Some(copy_text(model));
        next.updated_at = now;
        next
    }

    pub fn with_legacy_routing(self, enabled: bool, now: u64) -> (r: RuntimeState)
        ensures
            r@ == (RuntimeView { legacy_routing: enabled, updated_at: now, ..self@ }),
    {
        let mut next = self;
        next.legacy_routing = enabled;
        next.updated_at = now;
        next
    }

    pub fn with_search_provider(self, provider: &str, now: u64) -> (r: RuntimeState)
        ensures
            r@ == (RuntimeView { search_provider: Some(provider@), updated_at: now, ..self@ }),
    {
        let mut next = self;
        next.search_provider = Some(copy_text(provider));
        next.updated_at = now;
        next
    }

    pub fn label(&self, fallback_model: &str) -> (r: String)
        ensures
            r@ == runtime_label(self@, fallback_model@),
    {
        let model = model_text(&self.model, fallback_model);
        match self.backend {
            RuntimeBackend::Provider => model,
            RuntimeBackend::Debug => concat2("debug:", model.as_str()),
        }
    }
}

pub open spec fn runtime_text(state: RuntimeView, fallback: Seq<char>) -> Seq<char> {
    "LLM: "@ + (match state.backend {
        RuntimeBackend::Provider => "provider"@,
        RuntimeBackend::Debug => "debug"@,
    }) + "\nRuntime: "@ + state.runtime + "\nModel: "@ + model_or(state.model, fallback)
        + "\nUpdated: "@ + decimal(state.updated_at as nat) + "\n"@
}

pub fn format_runtime_state(state: &RuntimeState, fallback_model: &str) -> (r: String)
    ensures
        r@ == runtime_text(state@, fallback_model@),
{
    let backend = match state.backend {
        RuntimeBackend::Provider => "provider",
        RuntimeBackend::Debug => "debug",
    };
    let mut out = concat3("LLM: ", backend, "\nRuntime: ");
    push_text(&mut out, state.runtime.as_str());
    push_text(&mut out, "\nModel: ");
    push_text(&mut out, model_text(&state.model, fallback_model).as_str());
    push_text(&mut out, "\nUpdated: ");
    push_text(&mut out, decimal_text(state.updated_at).as_str());
    push_text(&mut out, "\n");
    out
}

pub open spec fn backend_result(r: Result<Option<RuntimeBackend>, String>) -> Result<
    Option<RuntimeBackend>,
    Seq<char>,
> {
    match r {
        Ok(b) => Ok(b),
        Err(e) => Err(e@),
    }
}

/// The backend that a debug command asks for: none without a word, and an error
/// for a word that is not known.
pub fn debug_request(mode: Option<&str>) -> (r: Result<Option<RuntimeBackend>, String>)
    ensures
        backend_result(r) == match mode {
            None => Ok(None),
            Some(m) => match backend_named(m@) {
                Some(b) => Ok(Some(b)),
                None => Err("debug mode must be one of: on, off, debug, manual, provider"@),
            },
        },
{
    match mode {
        None => Ok(None),
        Some(m) => match RuntimeBackend::parse(m) {
            Some(b) => Ok(Some(b)),
            None => Err(copy_text("debug mode must be one of: on, off, debug, manual, provider")),
        },
    }
}

pub open spec fn loaded_view(r: Result<RuntimeState, String>) -> Result<RuntimeView, Seq<char>> {
    match r {
        Ok(state) => Ok(state@),
        Err(e) => Err(e@),
    }
}

/// The state to save for another backend, given what reading the saved one came
/// to.
pub open spec fn backend_set(
    loaded: Result<RuntimeView, Seq<char>>,
    backend: RuntimeBackend,
    now: u64,
) -> Result<RuntimeView, Seq<char>> {
    match loaded {
        Ok(state) => Ok(RuntimeView { backend, updated_at: now, ..state }),
        Err(e) => Err(e),
    }
}

/// The state to save for another backend. Where there is none, nothing is to be
/// saved.
pub fn set_backend(
    loaded: Result<RuntimeState, String>,
    backend: RuntimeBackend,
    now: u64,
) -> (r: Result<RuntimeState, String>)
    ensures
        loaded_view(r) == backend_set(loaded_view(loaded), backend, now),
{
    match loaded {
        Ok(state) => Ok(state.with_backend(backend, now)),
        Err(e) => Err(e),
    }
}

/// How a state is shown: as text, or as the JSON of the state.
#[derive(Debug, PartialEq)]
pub enum Shown {
    Text(String),
    Json,
}

pub enum ShownView {
    Text(Seq<char>),
    Json(RuntimeView),
}

/// What is shown of a state.
pub open spec fn shown_of(state: RuntimeView, model: Seq<char>, json: bool) -> ShownView {
    if json {
        ShownView::Json(state)
    } else {
        ShownView::Text(runtime_text(state, model))
    }
}

/// What a debug command does: the state after it, whether that is to be saved,
/// and how it is shown.
#[derive(Debug)]
pub struct DebugOutcome {
    pub state: RuntimeState,
    pub changed: bool,
    pub shown: Shown,
}

pub struct OutcomeView {
    pub state: RuntimeView,
    pub changed: bool,
    pub shown: ShownView,
}

impl View for DebugOutcome {
    type V = OutcomeView;

    open spec fn view(&self) -> OutcomeView {
        OutcomeView {
            state: self.state@,
            changed: self.changed,
            shown: match self.shown {
                Shown::Text(text) => ShownView::Text(text@),
                Shown::Json => ShownView::Json(self.state@),
            },
        }
    }
}

impl DebugOutcome {
    fn of(state: RuntimeState, changed: bool, model: &str, json: bool) -> (r: DebugOutcome)
        ensures
            r@ == (OutcomeView { state: state@, changed, shown: shown_of(state@, model@, json) }),
    {
        let shown = if json {
            Shown::Json
        } else {
            Shown::Text(format_runtime_state(&state, model))
        };
        DebugOutcome { state, changed, shown }
    }
}

pub open spec fn debug_outcome(r: Result<DebugOutcome, String>) -> Result<OutcomeView, Seq<char>> {
    match r {
        Ok(o) => Ok(o@),
        Err(e) => Err(e@),
    }
}

/// What a debug command does, given what reading the saved state came to. A
/// word that is not known is an error before anything else is looked at.
pub open spec fn debugged(
    loaded: Result<RuntimeView, Seq<char>>,
    model: Seq<char>,
    mode: Option<Seq<char>>,
    json: bool,
    now: u64,
) -> Result<OutcomeView, Seq<char>> {
    match mode {
        None => runtime_shown(loaded, model, json),
        Some(m) => match backend_named(m) {
            Some(backend) => match backend_set(loaded, backend, now) {
                Ok(next) => Ok(
                    OutcomeView { state: next, changed: true, shown: shown_of(next, model, json) },
                ),
                Err(e) => Err(e),
            },
            None => Err("debug mode must be one of: on, off, debug, manual, provider"@),
        },
    }
}

pub fn debug_result(
    loaded: Result<RuntimeState, String>,
    model: &str,
    mode: Option<&str>,
    json: bool,
    now: u64,
) -> (r: Result<DebugOutcome, String>)
    ensures
        debug_outcome(r) == debugged(loaded_view(loaded), model@, opt_str_text(mode), json, now),
{
    match debug_request(mode) {
        Err(e) => Err(e),
        Ok(None) => runtime_result(loaded, model, json),
        Ok(Some(backend)) => match set_backend(loaded, backend, now) {
            Ok(next) => Ok(DebugOutcome::of(next, true, model, json)),
            Err(e) => Err(e),
        },
    }
}

/// What the runtime command does: it shows the state.
pub open spec fn runtime_shown(
    loaded: Result<RuntimeView, Seq<char>>,
    model: Seq<char>,
    json: bool,
) -> Result<OutcomeView, Seq<char>> {
    match loaded {
        Ok(state) => Ok(OutcomeView { state, changed: false, shown: shown_of(state, model, json) }),
        Err(e) => Err(e),
    }
}

/// What the runtime command does, given what reading the saved state came to.
pub fn runtime_result(loaded: Result<RuntimeState, String>, model: &str, json: bool) -> (r: Result<
    DebugOutcome,
    String,
>)
    ensures
        debug_outcome(r) == runtime_shown(loaded_view(loaded), model@, json),
{
    match loaded {
        Ok(state) => Ok(DebugOutcome::of(state, false, model, json)),
        Err(e) => Err(e),
    }
}

/// What switching to the other backend does.
pub open spec fn toggled(
    loaded: Result<RuntimeView, Seq<char>>,
    model: Seq<char>,
    now: u64,
) -> Result<OutcomeView, Seq<char>> {
    match loaded {
        Ok(state) => {
            let next = RuntimeView {
                backend: other_backend(state.backend),
                updated_at: now,
                ..state
            };
            Ok(OutcomeView { state: next, changed: true, shown: shown_of(next, model, false) })
        },
        Err(e) => Err(e),
    }
}

pub fn toggle_debug_result(loaded: Result<RuntimeState, String>, model: &str, now: u64) -> (r:
    Result<DebugOutcome, String>)
    ensures
        debug_outcome(r) == toggled(loaded_view(loaded), model@, now),
{
    match loaded {
        Ok(state) => {
            let backend = state.backend.toggled();
            Ok(DebugOutcome::of(state.with_backend(backend, now), true, model, false))
        },
        Err(e) => Err(e),
    }
}

// ---------------------------------------------------------------------------
// What is saved
// ---------------------------------------------------------------------------

pub open spec fn opt_runtime(o: Option<RuntimeState>) -> Option<RuntimeView> {
    match o {
        Some(state) => Some(state@),
        None => None,
    }
}

/// The state to go by: the saved one, or else that before anything was set.
pub open spec fn runtime_or_fresh(
    saved: Option<RuntimeView>,
    model: Seq<char>,
    now: u64,
) -> RuntimeView {
    match saved {
        Some(state) => state,
        None => fresh_runtime(Some(model), now),
    }
}

pub fn load_or_provider(saved: Option<RuntimeState>, default_model: &str, now: u64) -> (r:
    RuntimeState)
    ensures
        r@ == runtime_or_fresh(opt_runtime(saved), default_model@, now),
{
    match saved {
        Some(state) => state,
        None => RuntimeState::provider(Some(copy_text(default_model)), now),
    }
}

/// What is saved after a state was to be: the state, or where there is an error
/// what was saved before.
pub open spec fn saved_state(
    saved: Option<RuntimeView>,
    r: Result<RuntimeView, Seq<char>>,
) -> Option<RuntimeView> {
    match r {
        Ok(state) => Some(state),
        Err(_) => saved,
    }
}

/// The saved state after a command, where it was `saved` before: only a command
/// that succeeded and changed something is written.
pub open spec fn saved_after(
    saved: Option<RuntimeView>,
    r: Result<OutcomeView, Seq<char>>,
) -> Option<RuntimeView> {
    match r {
        Ok(o) => if o.changed {
            Some(o.state)
        } else {
            saved
        },
        Err(_) => saved,
    }
}

impl DebugOutcome {
    /// The state to write, if there is one.
    pub fn to_save(&self) -> (r: Option<&RuntimeState>)
        ensures
            match r {
                Some(state) => self.changed && state@ == self.state@,
                None => !self.changed,
            },
    {
        if self.changed {
            Some(&self.state)
        } else {
            None
        }
    }
}

/// The runtime command is the debug command without a word, as text and as
/// JSON: it shows the same and neither changes nor creates what is saved.
pub proof fn law_runtime_command_changes_nothing(
    saved: Option<RuntimeView>,
    loaded: Result<RuntimeView, Seq<char>>,
    model: Seq<char>,
    json: bool,
    now: u64,
)
    ensures
        runtime_shown(loaded, model, json) == debugged(loaded, model, None, json, now),
        saved_after(saved, runtime_shown(loaded, model, json)) == saved,
        runtime_shown(loaded, model, json) is Ok <==> loaded is Ok,
        loaded is Ok ==> runtime_shown(loaded, model, json)->Ok_0.state == loaded->Ok_0,
{
}

/// With nothing saved, the runtime command shows the provider at the terminal
/// with the model that was asked for; as JSON it shows that same state.
pub proof fn law_fresh_runtime_is_the_provider(model: Seq<char>, now: u64)
    ensures
        ({
            let fresh = runtime_or_fresh(None, model, now);
            &&& runtime_shown(Ok(fresh), model, false)->Ok_0.shown == ShownView::Text(
                "LLM: provider\nRuntime: terminal\nModel: "@ + model + "\nUpdated: "@ + decimal(
                    now as nat,
                ) + "\n"@,
            )
            &&& runtime_shown(Ok(fresh), model, true)->Ok_0.shown == ShownView::Json(
                fresh_runtime(Some(model), now),
            )
        }),
{
    reveal_strlit("LLM: ");
    reveal_strlit("provider");
    reveal_strlit("\nRuntime: ");
    reveal_strlit("terminal");
    reveal_strlit("\nModel: ");
    reveal_strlit("LLM: provider\nRuntime: terminal\nModel: ");
    let shown = runtime_text(fresh_runtime(Some(model), now), model);
    assert(shown =~= "LLM: provider\nRuntime: terminal\nModel: "@ + model + "\nUpdated: "@
        + decimal(now as nat) + "\n"@);
}

/// A backend that is set is saved with everything else as it was and read back
/// later; an error is that of reading, and leaves what is saved alone.
pub proof fn law_set_backend_keeps_the_rest(
    saved: Option<RuntimeView>,
    loaded: Result<RuntimeView, Seq<char>>,
    backend: RuntimeBackend,
    model: Seq<char>,
    now: u64,
    later: u64,
)
    ensures
        match backend_set(loaded, backend, now) {
            Ok(next) => {
                &&& loaded is Ok
                &&& runtime_or_fresh(
                    saved_state(saved, backend_set(loaded, backend, now)),
                    model,
                    later,
                ) == next
                &&& next.backend == backend
                &&& next.runtime == loaded->Ok_0.runtime
                &&& next.model == loaded->Ok_0.model
                &&& next.legacy_routing == loaded->Ok_0.legacy_routing
                &&& next.search_provider == loaded->Ok_0.search_provider
            },
            Err(e) => {
                &&& loaded == Err::<RuntimeView, Seq<char>>(e)
                &&& saved_state(saved, backend_set(loaded, backend, now)) == saved
            },
        },
{
}

/// A debug command that fails leaves what is saved alone, and one that succeeds
/// with a word saves just what it shows.
pub proof fn law_failed_commands_save_nothing(
    saved: Option<RuntimeView>,
    loaded: Result<RuntimeView, Seq<char>>,
    model: Seq<char>,
    mode: Option<Seq<char>>,
    json: bool,
    now: u64,
)
    ensures
        debugged(loaded, model, mode, json, now) is Err ==> saved_after(
            saved,
            debugged(loaded, model, mode, json, now),
        ) == saved,
        debugged(loaded, model, mode, json, now) is Ok && mode is Some ==> saved_after(
            saved,
            debugged(loaded, model, mode, json, now),
        ) == Some(debugged(loaded, model, mode, json, now)->Ok_0.state),
{
}

pub open spec fn debug_text(prompt: Seq<char>, model: Seq<char>) -> Seq<char> {
    "debug/manual backend\nprovider: "@ + PROVIDER@ + "\nmodel: "@ + model + "\nprompt: "@ + prompt
        + "\n\nThis is a local diagnostic response. Normal chat does not get filesystem tools; use `agent --root <path> ...` for file read/write work."@
}

pub fn debug_response(prompt: &str, model: &str) -> (r: String)
    ensures
        r@ == debug_text(prompt@, model@),
{
    let mut out = concat3("debug/manual backend\nprovider: ", PROVIDER, "\nmodel: ");
    push_text(&mut out, model);
    push_text(&mut out, "\nprompt: ");
    push_text(&mut out, prompt);
    push_text(
        &mut out,
        "\n\nThis is a local diagnostic response. Normal chat does not get filesystem tools; use `agent --root <path> ...` for file read/write work.",
    );
    out
}

/// The delay between streamed pieces that a setting asks for, in milliseconds;
/// zero asks for none.
pub open spec fn delay_setting(value: Option<Seq<char>>) -> Option<nat> {
    match value {
        Some(v) => match parsed_number(v, u64::MAX as nat) {
            Some(n) => if n > 0 {
                Some(n)
            } else {
                None
            },
            None => None,
        },
        None => None,
    }
}

pub open spec fn opt_nat(o: Option<u64>) -> Option<nat> {
    match o {
        Some(n) => Some(n as nat),
        None => None,
    }
}

pub fn debug_stream_delay(value: Option<&str>) -> (r: Option<u64>)
    ensures
        opt_nat(r) == delay_setting(opt_str_text(value)),
{
    match value {
        Some(v) => match parse_number(v, u64::MAX) {
            Some(n) => if n > 0 { Some(n) } else { None },
            None => None,
        },
        None => None,
    }
}

pub fn runtime_path(home: Option<&str>) -> (r: String)
    ensures
        r@ == state_path(
            opt_str_text(home),
            PROVIDER_DIR@,
            PROVIDER_STATE_DIR@,
            "runtime-state.json"@,
        ),
{
    state_path_for(home, PROVIDER_DIR, PROVIDER_STATE_DIR, "runtime-state.json")
}

} // verus!
