//! The pipeline's control state machine: configuration, lifecycle
//! (stopped → starting → running → stopping → stopped), per-output
//! transform updates and the events each step emits.
//!
//! The frame threads, channels and timers that run a started pipeline live
//! with the caller; this type decides what each request does and hands back
//! what the caller has to set up.
use vstd::prelude::*;

use crate::config::{outputs_valid, validation_message, Config, ConfigView, OutputConfig, PreviewConfig};
use crate::error::Error;
use crate::input::InputDriver;
use crate::types::{OutputTransform, PipelineState};

verus! {

/// Events the pipeline reports to its subscribers.
#[derive(Debug, Clone)]
pub enum PipelineEvent {
    StateChanged { state: PipelineState },
    DeviceEvent { device: String, status: String },
    ConfigChanged,
    Error { message: String },
}

/// The pipeline's control state.
pub struct Pipeline {
    state: PipelineState,
    config: Option<Config>,
    config_path: Option<String>,
    preview_ids: Vec<String>,
    running: bool,
    events: Vec<PipelineEvent>,
}

/// The abstract state of a pipeline.
pub struct PipelineView {
    /// Lifecycle state.
    pub state: PipelineState,
    /// The configuration, once one has been set or loaded.
    pub config: Option<ConfigView>,
    /// Where the configuration is saved to and was loaded from.
    pub config_path: Option<Seq<char>>,
    /// Outputs that have a preview channel (those enabled when started).
    pub preview_ids: Seq<Seq<char>>,
    /// Whether frame processing has been set up.
    pub running: bool,
    /// Events emitted and not yet taken.
    pub events: Seq<PipelineEvent>,
}

impl View for Pipeline {
    type V = PipelineView;

    closed spec fn view(&self) -> PipelineView {
        PipelineView {
            state: self.state,
            config: match self.config {
                Some(c) => Some(c@),
                None => None,
            },
            config_path: match self.config_path {
                Some(p) => Some(p@),
                None => None,
            },
            preview_ids: self.preview_ids@.map_values(|s: String| s@),
            running: self.running,
            events: self.events@,
        }
    }
}

/// What a successful start hands to the caller to set up.
pub struct StartPlan {
    /// The input driver to run.
    pub driver: InputDriver,
    /// The enabled outputs, in configuration order.
    pub outputs: Vec<OutputConfig>,
    /// Preview settings.
    pub preview: PreviewConfig,
}

/// The enabled outputs, in order.
pub open spec fn enabled_outputs(outputs: Seq<OutputConfig>) -> Seq<OutputConfig>
    decreases outputs.len(),
{
    if outputs.len() == 0 {
        Seq::empty()
    } else {
        let rest = enabled_outputs(outputs.drop_last());
        if outputs.last().enabled {
            rest.push(outputs.last())
        } else {
            rest
        }
    }
}

/// The ids of a list of outputs.
pub open spec fn output_ids(outputs: Seq<OutputConfig>) -> Seq<Seq<char>> {
    outputs.map_values(|o: OutputConfig| o.id@)
}

/// A start can proceed: the pipeline is stopped and configured.
pub open spec fn start_admitted(v: PipelineView) -> bool {
    v.state == PipelineState::Stopped && v.config is Some
}

/// The state after a start request. A stopped, configured pipeline moves
/// to `Starting`; if its input can be driven it then sets up the enabled
/// outputs' previews and moves to `Running`, otherwise it stays `Starting`.
/// Each state change is emitted. Any other request changes nothing.
pub open spec fn start_view(v: PipelineView) -> PipelineView {
    if !start_admitted(v) {
        v
    } else {
        let c = v.config->Some_0;
        if c.input is Mock {
            PipelineView {
                state: PipelineState::Running,
                preview_ids: output_ids(enabled_outputs(c.outputs)),
                running: true,
                events: v.events.push(PipelineEvent::StateChanged { state: PipelineState::Starting }).push(
                    PipelineEvent::StateChanged { state: PipelineState::Running },
                ),
                ..v
            }
        } else {
            PipelineView {
                state: PipelineState::Starting,
                events: v.events.push(PipelineEvent::StateChanged { state: PipelineState::Starting }),
                ..v
            }
        }
    }
}

/// The state after a stop request: a running pipeline tears down its
/// previews and passes through `Stopping` to `Stopped`, emitting both
/// changes; any other request changes nothing.
pub open spec fn stop_view(v: PipelineView) -> PipelineView {
    if v.state != PipelineState::Running {
        v
    } else {
        PipelineView {
            state: PipelineState::Stopped,
            preview_ids: Seq::empty(),
            running: false,
            events: v.events.push(PipelineEvent::StateChanged { state: PipelineState::Stopping }).push(
                PipelineEvent::StateChanged { state: PipelineState::Stopped },
            ),
            ..v
        }
    }
}

/// The state after setting a configuration: a valid one is installed and a
/// change event emitted; an invalid one changes nothing.
pub open spec fn set_config_view(v: PipelineView, c: ConfigView) -> PipelineView {
    if outputs_valid(c.outputs) {
        PipelineView { config: Some(c), events: v.events.push(PipelineEvent::ConfigChanged), ..v }
    } else {
        v
    }
}

/// The state after loading a configuration from `path`: a valid one is
/// installed together with its path and a change event emitted; an invalid
/// one changes nothing.
pub open spec fn load_config_view(v: PipelineView, c: ConfigView, path: Seq<char>) -> PipelineView {
    if outputs_valid(c.outputs) {
        PipelineView {
            config: Some(c),
            config_path: Some(path),
            events: v.events.push(PipelineEvent::ConfigChanged),
            ..v
        }
    } else {
        v
    }
}

/// Output `i` is the first with the given id.
pub open spec fn is_first_output_with_id(outputs: Seq<OutputConfig>, id: Seq<char>, i: int) -> bool {
    &&& 0 <= i < outputs.len()
    &&& outputs[i].id@ == id
    &&& forall|j: int| 0 <= j < i ==> (#[trigger] outputs[j]).id@ != id
}

/// Some output has the given id.
pub open spec fn has_output_with_id(outputs: Seq<OutputConfig>, id: Seq<char>) -> bool {
    exists|i: int| 0 <= i < outputs.len() && (#[trigger] outputs[i]).id@ == id
}

/// The outputs with the transform of the first output with `id` replaced.
pub open spec fn outputs_with_transform(outputs: Seq<OutputConfig>, id: Seq<char>, t: OutputTransform) -> Seq<
    OutputConfig,
> {
    let i = choose|i: int| is_first_output_with_id(outputs, id, i);
    outputs.update(i, OutputConfig { transform: t, ..outputs[i] })
}

/// The state after updating an output's transform: the first output with
/// the id gets the new transform and a change event is emitted; without a
/// configuration or such an output nothing changes.
pub open spec fn update_output_view(v: PipelineView, id: Seq<char>, t: OutputTransform) -> PipelineView {
    match v.config {
        Some(c) => if has_output_with_id(c.outputs, id) {
            PipelineView {
                config: Some(ConfigView { outputs: outputs_with_transform(c.outputs, id, t), ..c }),
                events: v.events.push(PipelineEvent::ConfigChanged),
                ..v
            }
        } else {
            v
        },
        None => v,
    }
}

/// The message for an unknown output id.
pub open spec fn output_not_found_message(id: Seq<char>) -> Seq<char> {
    "output '"@ + id + "' not found"@
}

/// The consistency of a pipeline's state: it processes frames exactly when
/// running, and a stopped pipeline has no previews.
pub open spec fn pipeline_inv(v: PipelineView) -> bool {
    &&& v.running <==> v.state == PipelineState::Running
    &&& v.state == PipelineState::Stopped ==> v.preview_ids.len() == 0
}

/// A request to the pipeline, by its effect on the abstract state.
pub enum Request {
    Start,
    Stop,
    SetConfig(ConfigView),
    LoadConfig(ConfigView, Seq<char>),
    UpdateOutput(Seq<char>, OutputTransform),
    SetConfigPath(Seq<char>),
    TakeEvents,
}

/// The state after one request.
pub open spec fn apply_request(v: PipelineView, r: Request) -> PipelineView {
    match r {
        Request::Start => start_view(v),
        Request::Stop => stop_view(v),
        Request::SetConfig(c) => set_config_view(v, c),
        Request::LoadConfig(c, path) => load_config_view(v, c, path),
        Request::UpdateOutput(id, t) => update_output_view(v, id, t),
        Request::SetConfigPath(path) => PipelineView { config_path: Some(path), ..v },
        Request::TakeEvents => PipelineView { events: Seq::empty(), ..v },
    }
}

/// The state after a sequence of requests, in order.
pub open spec fn run_requests(v: PipelineView, rs: Seq<Request>) -> PipelineView
    decreases rs.len(),
{
    if rs.len() == 0 {
        v
    } else {
        apply_request(run_requests(v, rs.drop_last()), rs.last())
    }
}

/// A start request succeeds: the pipeline is stopped, configured, and its
/// input can be driven.
pub open spec fn start_succeeds(v: PipelineView) -> bool {
    start_admitted(v) && v.config->Some_0.input is Mock
}

/// The configuration in force at the last successful start of a sequence
/// of requests, if any start succeeded.
pub open spec fn last_started_config(v: PipelineView, rs: Seq<Request>) -> Option<ConfigView>
    decreases rs.len(),
{
    if rs.len() == 0 {
        None
    } else {
        let prev = run_requests(v, rs.drop_last());
        if rs.last() is Start && start_succeeds(prev) {
            prev.config
        } else {
            last_started_config(v, rs.drop_last())
        }
    }
}

proof fn lemma_enabled_outputs_step(outputs: Seq<OutputConfig>, i: int)
    requires
        0 <= i < outputs.len(),
    ensures
        enabled_outputs(outputs.take(i + 1)) == if outputs[i].enabled {
            enabled_outputs(outputs.take(i)).push(outputs[i])
        } else {
            enabled_outputs(outputs.take(i))
        },
{
    assert(outputs.take(i + 1).drop_last() =~= outputs.take(i));
}

/// Copies of the enabled outputs, in order.
fn collect_enabled(outputs: &Vec<OutputConfig>) -> (r: Vec<OutputConfig>)
    ensures
        r@ == enabled_outputs(outputs@),
{
    let mut out: Vec<OutputConfig> = Vec::new();
    let mut i: usize = 0;
    while i < outputs.len()
        invariant
            i <= outputs@.len(),
            out@ == enabled_outputs(outputs@.take(i as int)),
        decreases outputs@.len() - i,
    {
        proof {
            lemma_enabled_outputs_step(outputs@, i as int);
        }
        if outputs[i].enabled {
            out.push(outputs[i].clone());
        }
        i += 1;
    }
    assert(outputs@.take(outputs@.len() as int) =~= outputs@);
    out
}

/// Copies of the ids of a list of outputs.
fn collect_ids(outputs: &Vec<OutputConfig>) -> (r: Vec<String>)
    ensures
        r@.map_values(|s: String| s@) == output_ids(outputs@),
{
    let mut ids: Vec<String> = Vec::new();
    let mut i: usize = 0;
    while i < outputs.len()
        invariant
            i <= outputs@.len(),
            ids@.len() == i,
            forall|k: int| 0 <= k < i ==> (#[trigger] ids@[k])@ == outputs@[k].id@,
        decreases outputs@.len() - i,
    {
        ids.push(outputs[i].id.clone());
        i += 1;
    }
    assert(ids@.map_values(|s: String| s@) =~= output_ids(outputs@));
    ids
}

impl Pipeline {
    /// A stopped pipeline without configuration.
    pub fn new() -> (p: Self)
        ensures
            p@.state == PipelineState::Stopped,
            p@.config is None,
            p@.config_path is None,
            p@.preview_ids.len() == 0,
            !p@.running,
            p@.events.len() == 0,
    {
        let p = Pipeline {
            state: PipelineState::Stopped,
            config: None,
            config_path: None,
            preview_ids: Vec::new(),
            running: false,
            events: Vec::new(),
        };
        assert(p@.preview_ids =~= Seq::<Seq<char>>::empty());
        p
    }

    /// Lifecycle state.
    pub fn state(&self) -> (r: PipelineState)
        ensures
            r == self@.state,
    {
        self.state
    }

    /// The configuration, if one is set.
    pub fn config(&self) -> (r: Option<&Config>)
        ensures
            match r {
                Some(c) => self@.config == Some(c@),
                None => self@.config is None,
            },
    {
        self.config.as_ref()
    }

    /// Where the configuration is saved to, if set.
    pub fn config_path(&self) -> (r: Option<&String>)
        ensures
            match r {
                Some(p) => self@.config_path == Some(p@),
                None => self@.config_path is None,
            },
    {
        self.config_path.as_ref()
    }

    /// Set and validate a new configuration.
    pub fn set_config(&mut self, config: Config) -> (r: Result<(), Error>)
        ensures
            r is Ok <==> outputs_valid(config@.outputs),
            r matches Err(e) ==> (e matches Error::Config(m) && m@ == validation_message(config@.outputs)),
            final(self)@ == set_config_view(old(self)@, config@),
    {
        let ghost cv = config@;
        match config.validate() {
            Ok(()) => {
                self.config = Some(config);
                self.events.push(PipelineEvent::ConfigChanged);
                proof {
                    assert(self@.preview_ids =~= old(self)@.preview_ids);
                    assert(self@ == set_config_view(old(self)@, cv));
                }
                Ok(())
            },
            Err(e) => Err(e),
        }
    }

    /// Set where the configuration is saved to.
    pub fn set_config_path(&mut self, path: String)
        ensures
            final(self)@ == (PipelineView { config_path: Some(path@), ..old(self)@ }),
    {
        self.config_path = Some(path);
        proof {
            assert(self@.preview_ids =~= old(self)@.preview_ids);
        }
    }

    /// Start the pipeline: see `start_view` for the state change. On
    /// success the caller receives the input driver, the enabled outputs and
    /// the preview settings to set up frame processing with.
    pub fn start(&mut self) -> (r: Result<StartPlan, Error>)
        ensures
            final(self)@ == start_view(old(self)@),
            r is Ok <==> start_admitted(old(self)@) && old(self)@.config->Some_0.input is Mock,
            old(self)@.state != PipelineState::Stopped ==> (r matches Err(Error::Pipeline(m)) && m@
                == "pipeline is not stopped"@),
            old(self)@.state == PipelineState::Stopped && old(self)@.config is None ==> (r matches Err(
                Error::Config(m),
            ) && m@ == "no configuration set"@),
            start_admitted(old(self)@) && !(old(self)@.config->Some_0.input is Mock) ==> (r matches Err(
                Error::Pipeline(m),
            ) && m@ == crate::input::unsupported_input_message()),
            r matches Ok(plan) ==> {
                let c = old(self)@.config->Some_0;
                &&& plan.outputs@ == enabled_outputs(c.outputs)
                &&& plan.preview == c.preview
                &&& match c.input {
                    crate::config::InputSource::Mock { width, height, fps } => plan.driver matches InputDriver::Mock(m)
                        && m.spec_width() == width && m.spec_height() == height && m.spec_fps() == fps,
                    _ => false,
                }
            },
    {
        if self.state != PipelineState::Stopped {
            return Err(Error::Pipeline(String::from_str("pipeline is not stopped")));
        }
        let (driver, outputs, preview) = match &self.config {
            None => {
                return Err(Error::Config(String::from_str("no configuration set")));
            },
            Some(config) => (
                InputDriver::from_config(&config.input),
                collect_enabled(&config.outputs),
                config.preview.clone(),
            ),
        };
        self.state = PipelineState::Starting;
        self.events.push(PipelineEvent::StateChanged { state: PipelineState::Starting });
        let driver = match driver {
            Ok(d) => d,
            Err(e) => {
                proof {
                    assert(self@.preview_ids =~= old(self)@.preview_ids);
                    assert(self@ == start_view(old(self)@));
                }
                return Err(e);
            },
        };
        self.preview_ids = collect_ids(&outputs);
        self.running = true;
        self.state = PipelineState::Running;
        self.events.push(PipelineEvent::StateChanged { state: PipelineState::Running });
        proof {
            assert(self@ == start_view(old(self)@));
        }
        Ok(StartPlan { driver, outputs, preview })
    }

    /// Stop the pipeline: see `stop_view` for the state change.
    pub fn stop(&mut self) -> (r: Result<(), Error>)
        ensures
            final(self)@ == stop_view(old(self)@),
            r is Ok <==> old(self)@.state == PipelineState::Running,
            r matches Err(e) ==> (e matches Error::Pipeline(m) && m@ == "pipeline is not running"@),
    {
        if self.state != PipelineState::Running {
            return Err(Error::Pipeline(String::from_str("pipeline is not running")));
        }
        self.state = PipelineState::Stopping;
        self.events.push(PipelineEvent::StateChanged { state: PipelineState::Stopping });
        self.running = false;
        self.preview_ids = Vec::new();
        self.state = PipelineState::Stopped;
        self.events.push(PipelineEvent::StateChanged { state: PipelineState::Stopped });
        proof {
            assert(self@.preview_ids =~= Seq::<Seq<char>>::empty());
            assert(self@ == stop_view(old(self)@));
        }
        Ok(())
    }

    /// The configuration and path to save, or why there is nothing to save.
    pub fn save_target(&self) -> (r: Result<(&Config, &String), Error>)
        ensures
            self@.config is None ==> (r matches Err(Error::Config(m)) && m@
                == "no configuration to save"@),
            self@.config is Some && self@.config_path is None ==> (r matches Err(Error::Config(m))
                && m@ == "no config path set"@),
            r matches Ok((c, p)) ==> self@.config == Some(c@) && self@.config_path == Some(p@),
            r is Ok <==> self@.config is Some && self@.config_path is Some,
    {
        match &self.config {
            None => Err(Error::Config(String::from_str("no configuration to save"))),
            Some(config) => match &self.config_path {
                None => Err(Error::Config(String::from_str("no config path set"))),
                Some(path) => Ok((config, path)),
            },
        }
    }

    /// Install a configuration loaded from `path`: see `load_config_view`.
    pub fn load_config(&mut self, config: Config, path: String) -> (r: Result<(), Error>)
        ensures
            r is Ok <==> outputs_valid(config@.outputs),
            r matches Err(e) ==> (e matches Error::Config(m) && m@ == validation_message(config@.outputs)),
            final(self)@ == load_config_view(old(self)@, config@, path@),
    {
        let ghost cv = config@;
        match config.validate() {
            Ok(()) => {
                self.config = Some(config);
                self.config_path = Some(path);
                self.events.push(PipelineEvent::ConfigChanged);
                proof {
                    assert(self@.preview_ids =~= old(self)@.preview_ids);
                    assert(self@ == load_config_view(old(self)@, cv, path@));
                }
                Ok(())
            },
            Err(e) => Err(e),
        }
    }

    /// Replace the transform of the first output with id `id`: see
    /// `update_output_view`. When frame processing is set up, the caller
    /// receives the enabled outputs to hand to it.
    pub fn update_output(&mut self, id: &str, transform: OutputTransform) -> (r: Result<
        Option<Vec<OutputConfig>>,
        Error,
    >)
        ensures
            final(self)@ == update_output_view(old(self)@, id@, transform),
            old(self)@.config is None ==> (r matches Err(Error::Config(m)) && m@
                == "no configuration set"@),
            old(self)@.config matches Some(c) && !has_output_with_id(c.outputs, id@) ==> (r matches Err(
                Error::DeviceNotFound(m),
            ) && m@ == output_not_found_message(id@)),
            r is Ok <==> (old(self)@.config matches Some(c) && has_output_with_id(c.outputs, id@)),
            r matches Ok(u) ==> (u is Some <==> old(self)@.running),
            r matches Ok(Some(u)) ==> u@ == enabled_outputs(final(self)@.config->Some_0.outputs),
    {
        let ghost v0 = old(self)@;
        let target = String::from_str(id);
        let mut config = match self.config.take() {
            None => {
                return Err(Error::Config(String::from_str("no configuration set")));
            },
            Some(c) => c,
        };
        let n: usize = config.outputs.len();
        let mut i: usize = 0;
        while i < n
            invariant
                n == config.outputs@.len(),
                i <= n,
                target@ == id@,
                forall|j: int| 0 <= j < i ==> (#[trigger] config.outputs@[j]).id@ != id@,
            ensures
                i <= n,
                forall|j: int| 0 <= j < i ==> (#[trigger] config.outputs@[j]).id@ != id@,
                i < n ==> config.outputs@[i as int].id@ == id@,
            decreases n - i,
        {
            if config.outputs[i].id == target {
                break;
            }
            i += 1;
        }
        if i == n {
            self.config = Some(config);
            let msg = String::from_str("output '").concat(id).concat("' not found");
            proof {
                assert(self@.preview_ids =~= old(self)@.preview_ids);
                assert(self@ == v0);
            }
            return Err(Error::DeviceNotFound(msg));
        }
        proof {
            assert(is_first_output_with_id(config.outputs@, id@, i as int));
            assert(has_output_with_id(config.outputs@, id@));
            let c = choose|c: int| is_first_output_with_id(config.outputs@, id@, c);
            assert(c == i);
        }
        let mut updated = config.outputs[i].clone();
        updated.transform = transform;
        config.outputs.set(i, updated);
        let pushed = if self.running {
            Some(collect_enabled(&config.outputs))
        } else {
            None
        };
        self.config = Some(config);
        self.events.push(PipelineEvent::ConfigChanged);
        proof {
            assert(self@.preview_ids =~= old(self)@.preview_ids);
            assert(self@.config->Some_0.outputs =~= outputs_with_transform(v0.config->Some_0.outputs, id@, transform));
            assert(self@ == update_output_view(v0, id@, transform));
        }
        Ok(pushed)
    }

    /// The configured outputs, or none without a configuration.
    pub fn outputs(&self) -> (r: &[OutputConfig])
        ensures
            match self@.config {
                Some(c) => r@ == c.outputs,
                None => r@.len() == 0,
            },
    {
        match &self.config {
            Some(c) => c.outputs.as_slice(),
            None => &[],
        }
    }

    /// Whether output `id` has a preview channel (it was enabled when the
    /// running pipeline started).
    pub fn has_output_preview(&self, id: &str) -> (r: bool)
        ensures
            r <==> self@.preview_ids.contains(id@),
    {
        let target = String::from_str(id);
        let mut i: usize = 0;
        while i < self.preview_ids.len()
            invariant
                i <= self.preview_ids@.len(),
                target@ == id@,
                forall|j: int| 0 <= j < i ==> (#[trigger] self.preview_ids@[j])@ != id@,
            decreases self.preview_ids@.len() - i,
        {
            if self.preview_ids[i] == target {
                proof {
                    assert(self@.preview_ids[i as int] == id@);
                }
                return true;
            }
            i += 1;
        }
        proof {
            if self@.preview_ids.contains(id@) {
                let j = choose|j: int| 0 <= j < self@.preview_ids.len() && self@.preview_ids[j] == id@;
                assert(self.preview_ids@[j]@ == id@);
            }
        }
        false
    }

    /// Hand over the events emitted since the last call.
    pub fn take_events(&mut self) -> (r: Vec<PipelineEvent>)
        ensures
            r@ == old(self)@.events,
            final(self)@ == (PipelineView { events: Seq::empty(), ..old(self)@ }),
    {
        let mut taken: Vec<PipelineEvent> = Vec::new();
        std::mem::swap(&mut taken, &mut self.events);
        proof {
            assert(self@.preview_ids =~= old(self)@.preview_ids);
            assert(self@.events =~= Seq::<PipelineEvent>::empty());
        }
        taken
    }
}

impl Default for Pipeline {
    /// A stopped pipeline without configuration, as `new` gives.
    fn default() -> (p: Self)
        ensures
            p@.state == PipelineState::Stopped,
            p@.config is None,
            p@.config_path is None,
            p@.preview_ids.len() == 0,
            !p@.running,
            p@.events.len() == 0,
    {
        Self::new()
    }
}

// ---------------------------------------------------------------------------
// Laws
// ---------------------------------------------------------------------------

/// Every request keeps the pipeline consistent: it processes frames exactly
/// when running, and a stopped pipeline has no previews.
pub proof fn lemma_requests_keep_consistency(v: PipelineView, c: ConfigView, path: Seq<char>, id: Seq<char>, t: OutputTransform)
    requires
        pipeline_inv(v),
    ensures
        pipeline_inv(start_view(v)),
        pipeline_inv(stop_view(v)),
        pipeline_inv(set_config_view(v, c)),
        pipeline_inv(load_config_view(v, c, path)),
        pipeline_inv(update_output_view(v, id, t)),
        pipeline_inv(PipelineView { config_path: Some(path), ..v }),
        pipeline_inv(PipelineView { events: Seq::empty(), ..v }),
{
}

/// Starting a stopped pipeline whose input can be driven and then stopping
/// it brings it back to `Stopped` with no previews and the same
/// configuration, having emitted Starting, Running, Stopping and Stopped.
pub proof fn lemma_start_stop_round_trip(v: PipelineView)
    requires
        v.state == PipelineState::Stopped,
        v.config matches Some(c) && c.input is Mock,
    ensures
        ({
            let w = stop_view(start_view(v));
            &&& w.state == PipelineState::Stopped
            &&& !w.running
            &&& w.preview_ids.len() == 0
            &&& w.config == v.config
            &&& w.config_path == v.config_path
            &&& w.events == v.events + seq![
                PipelineEvent::StateChanged { state: PipelineState::Starting },
                PipelineEvent::StateChanged { state: PipelineState::Running },
                PipelineEvent::StateChanged { state: PipelineState::Stopping },
                PipelineEvent::StateChanged { state: PipelineState::Stopped },
            ]
        }),
{
    let w = stop_view(start_view(v));
    assert(w.events =~= v.events + seq![
        PipelineEvent::StateChanged { state: PipelineState::Starting },
        PipelineEvent::StateChanged { state: PipelineState::Running },
        PipelineEvent::StateChanged { state: PipelineState::Stopping },
        PipelineEvent::StateChanged { state: PipelineState::Stopped },
    ]);
}

/// While running, exactly the enabled outputs of the configuration have a
/// preview, right after starting.
pub proof fn lemma_start_previews_enabled_outputs(v: PipelineView)
    requires
        v.state == PipelineState::Stopped,
        v.config matches Some(c) && c.input is Mock,
    ensures
        start_view(v).state == PipelineState::Running,
        start_view(v).preview_ids == output_ids(enabled_outputs(v.config->Some_0.outputs)),
{
}

/// Updating an output's transform keeps every output's id, name, device and
/// enabled flag, changes only the first output with that id, and keeps a
/// valid configuration valid when the new transform has no empty crop.
pub proof fn lemma_update_output_keeps_outputs(v: PipelineView, id: Seq<char>, t: OutputTransform)
    requires
        v.config matches Some(c) && has_output_with_id(c.outputs, id),
    ensures
        ({
            let old_outputs = v.config->Some_0.outputs;
            let new_outputs = update_output_view(v, id, t).config->Some_0.outputs;
            &&& new_outputs.len() == old_outputs.len()
            &&& forall|k: int| 0 <= k < old_outputs.len() ==> {
                &&& (#[trigger] new_outputs[k]).id == old_outputs[k].id
                &&& new_outputs[k].name == old_outputs[k].name
                &&& new_outputs[k].device_index == old_outputs[k].device_index
                &&& new_outputs[k].enabled == old_outputs[k].enabled
                &&& new_outputs[k].transform == if is_first_output_with_id(old_outputs, id, k) {
                    t
                } else {
                    old_outputs[k].transform
                }
            }
            &&& outputs_valid(old_outputs) && !(t.crop matches Some(cr) && (cr.width == 0
                || cr.height == 0)) ==> outputs_valid(new_outputs)
        }),
{
    let outputs = v.config->Some_0.outputs;
    let i = choose|i: int| 0 <= i < outputs.len() && (#[trigger] outputs[i]).id@ == id;
    lemma_first_output_with_id_exists(outputs, id, i);
    let f = choose|f: int| is_first_output_with_id(outputs, id, f);
    let new_outputs = update_output_view(v, id, t).config->Some_0.outputs;
    assert forall|k: int| 0 <= k < outputs.len() implies is_first_output_with_id(outputs, id, k) == (k
        == f) by {
        if is_first_output_with_id(outputs, id, k) && k != f {
            if k < f {
                assert(outputs[k].id@ != id);
            } else {
                assert(outputs[f].id@ != id);
            }
        }
    }
    if outputs_valid(outputs) && !(t.crop matches Some(cr) && (cr.width == 0 || cr.height == 0)) {
        assert forall|a: int, b: int| 0 <= a < b < new_outputs.len() implies new_outputs[a].id@
            != new_outputs[b].id@ by {
            assert(new_outputs[a].id == outputs[a].id);
            assert(new_outputs[b].id == outputs[b].id);
        }
        assert forall|k: int| 0 <= k < new_outputs.len() implies !crate::config::has_zero_crop(
            #[trigger] new_outputs[k],
        ) by {
            if k != f {
                assert(new_outputs[k] == outputs[k]);
            }
        }
    }
}

/// Over any sequence of requests from a stopped pipeline without
/// previews (as `new` gives), an output has a preview exactly when the
/// pipeline is running and the output was enabled in the configuration in
/// force at the last successful start: while running the previews are the
/// ids of those enabled outputs, in order, and otherwise there are none.
pub proof fn lemma_previews_follow_last_start(v: PipelineView, rs: Seq<Request>, id: Seq<char>)
    requires
        v.state == PipelineState::Stopped,
        v.preview_ids.len() == 0,
    ensures
        ({
            let w = run_requests(v, rs);
            let last = last_started_config(v, rs);
            &&& w.state == PipelineState::Running ==> (last matches Some(c) && w.preview_ids
                == output_ids(enabled_outputs(c.outputs)))
            &&& w.state != PipelineState::Running ==> w.preview_ids.len() == 0
            &&& w.preview_ids.contains(id) <==> (w.state == PipelineState::Running && (last matches Some(c)
                && output_ids(enabled_outputs(c.outputs)).contains(id)))
        }),
    decreases rs.len(),
{
    let w = run_requests(v, rs);
    if rs.len() > 0 {
        lemma_previews_follow_last_start(v, rs.drop_last(), id);
    }
    if w.state != PipelineState::Running {
        assert(!w.preview_ids.contains(id));
    }
}

/// If some output has the id, a first one has it.
proof fn lemma_first_output_with_id_exists(outputs: Seq<OutputConfig>, id: Seq<char>, i: int)
    requires
        0 <= i < outputs.len(),
        outputs[i].id@ == id,
    ensures
        exists|f: int| is_first_output_with_id(outputs, id, f),
    decreases i,
{
    if forall|j: int| 0 <= j < i ==> (#[trigger] outputs[j]).id@ != id {
        assert(is_first_output_with_id(outputs, id, i));
    } else {
        let j = choose|j: int| 0 <= j < i && (#[trigger] outputs[j]).id@ == id;
        lemma_first_output_with_id_exists(outputs, id, j);
    }
}

} // verus!
