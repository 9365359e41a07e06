//! One cycle of the agent: which metrics it samples, in which order, under
//! which topics, and how a cycle moves on whatever each publish returned.
use vstd::prelude::*;
use vstd::string::StringExecFns;

use crate::config::{disk_path_list, switched_on, Config};
use crate::text::{decimal, push_decimal};

verus! {

/// Seconds over which processor use is sampled; when that metric is off the
/// cycle sleeps this long instead, so a cycle never takes less.
pub const SAMPLE_WINDOW_SECS: u64 = 15;

/// The delivery-quality level of every published message.
pub const PUBLISH_QOS: i32 = 2;

/// One step of a cycle.
#[derive(Debug)]
pub enum Step {
    /// Sample processor use over a window of seconds, then publish it.
    ProcessorUse { window_secs: u64 },
    /// Sleep for some seconds; nothing is published.
    Pause { secs: u64 },
    /// Publish the used share of the disk at `path`, the `index`-th of the list.
    DiskUse { index: usize, path: String },
    /// Publish the processor temperature.
    ProcessorTemperature,
    /// Publish the memory in use.
    MemoryUse,
    /// Publish the boot time.
    LastBoot,
}

/// A step as a mathematical value.
pub enum StepView {
    ProcessorUse { window_secs: u64 },
    Pause { secs: u64 },
    DiskUse { index: nat, path: Seq<char> },
    ProcessorTemperature,
    MemoryUse,
    LastBoot,
}

impl View for Step {
    type V = StepView;

    open spec fn view(&self) -> StepView {
        match self {
            Step::ProcessorUse { window_secs } => StepView::ProcessorUse { window_secs: *window_secs },
            Step::Pause { secs } => StepView::Pause { secs: *secs },
            Step::DiskUse { index, path } => StepView::DiskUse { index: *index as nat, path: path@ },
            Step::ProcessorTemperature => StepView::ProcessorTemperature,
            Step::MemoryUse => StepView::MemoryUse,
            Step::LastBoot => StepView::LastBoot,
        }
    }
}

/// The metric key of the `index`-th disk.
pub open spec fn disk_key_spec(index: nat) -> Seq<char> {
    "disk_use_percent_disk"@ + decimal(index)
}

/// The metric key a step publishes under; a pause publishes nothing.
pub open spec fn key_of(s: StepView) -> Option<Seq<char>> {
    match s {
        StepView::ProcessorUse { .. } => Some("processor_use"@),
        StepView::Pause { .. } => None,
        StepView::DiskUse { index, .. } => Some(disk_key_spec(index)),
        StepView::ProcessorTemperature => Some("processor_temperature"@),
        StepView::MemoryUse => Some("memory_use"@),
        StepView::LastBoot => Some("last_boot"@),
    }
}

/// The topic of a metric: `server_status/<hostname>/<key>`.
pub open spec fn topic_spec(hostname: Seq<char>, key: Seq<char>) -> Seq<char> {
    "server_status/"@ + hostname + "/"@ + key
}

/// The line reported when publishing `payload` under `key`, to `topic`, fails.
pub open spec fn failure_line_spec(key: Seq<char>, topic: Seq<char>, payload: Seq<char>) -> Seq<
    char,
> {
    "Failed to send message, "@ + key + ": "@ + topic + ": "@ + payload
}

/// `s` when `on`, else nothing.
pub open spec fn when(on: bool, s: StepView) -> Seq<StepView> {
    if on {
        seq![s]
    } else {
        Seq::empty()
    }
}

/// The disk steps: one per path, in list order, when disk use is on.
pub open spec fn disk_steps(c: &Config) -> Seq<StepView> {
    if switched_on(c.disk_use_percent) {
        let paths = disk_path_list(c);
        Seq::new(paths.len(), |i: int| StepView::DiskUse { index: i as nat, path: paths[i] })
    } else {
        Seq::empty()
    }
}

/// The steps of one cycle, in order: processor use (or the pause standing in
/// for it), the disks, processor temperature, memory use, boot time.
pub open spec fn cycle_plan(c: &Config) -> Seq<StepView> {
    let head = if switched_on(c.processor_use) {
        StepView::ProcessorUse { window_secs: SAMPLE_WINDOW_SECS }
    } else {
        StepView::Pause { secs: SAMPLE_WINDOW_SECS }
    };
    seq![head] + disk_steps(c) + when(switched_on(c.processor_temperature), StepView::ProcessorTemperature)
        + when(switched_on(c.memory_use), StepView::MemoryUse) + when(
        switched_on(c.last_boot),
        StepView::LastBoot,
    )
}

/// The metric key of the `index`-th disk, `disk_use_percent_disk<index>`.
pub fn disk_key(index: usize) -> (r: String)
    ensures
        r@ == disk_key_spec(index as nat),
{
    let mut out = String::from_str("disk_use_percent_disk");
    push_decimal(&mut out, index as u128);
    out
}

/// The topic of a metric, `server_status/<hostname>/<key>`.
pub fn topic(hostname: &str, key: &str) -> (r: String)
    ensures
        r@ == topic_spec(hostname@, key@),
{
    let mut out = String::from_str("server_status/");
    out.append(hostname);
    out.append("/");
    out.append(key);
    out
}

/// The line reported when publishing `payload` under `key`, to `topic`, fails.
pub fn failure_line(key: &str, topic: &str, payload: &str) -> (r: String)
    ensures
        r@ == failure_line_spec(key@, topic@, payload@),
{
    let mut out = String::from_str("Failed to send message, ");
    out.append(key);
    out.append(": ");
    out.append(topic);
    out.append(": ");
    out.append(payload);
    out
}

impl Step {
    /// The metric key this step publishes under; `None` for a pause.
    pub fn key(&self) -> (r: Option<String>)
        ensures
            r matches Some(k) ==> key_of(self@) == Some(k@),
            r is None ==> key_of(self@) is None,
    {
        match self {
            Step::ProcessorUse { .. } => Some(String::from_str("processor_use")),
            Step::Pause { .. } => None,
            Step::DiskUse { index, .. } => Some(disk_key(*index)),
            Step::ProcessorTemperature => Some(String::from_str("processor_temperature")),
            Step::MemoryUse => Some(String::from_str("memory_use")),
            Step::LastBoot => Some(String::from_str("last_boot")),
        }
    }
}

/// The steps of one cycle for `config`, in order.
pub fn cycle_steps(config: &Config) -> (r: Vec<Step>)
    ensures
        r@.len() == cycle_plan(config).len(),
        forall|i: int| 0 <= i < r@.len() ==> #[trigger] r@[i]@ == cycle_plan(config)[i],
{
    let ghost plan = cycle_plan(config);
    let mut out: Vec<Step> = Vec::new();
    if Config::enabled(config.processor_use) {
        out.push(Step::ProcessorUse { window_secs: SAMPLE_WINDOW_SECS });
    } else {
        out.push(Step::Pause { secs: SAMPLE_WINDOW_SECS });
    }
    let ghost mut built: Seq<StepView> = seq![plan[0]];
    assert(out@.len() == 1 && out@[0]@ == built[0]);
    if Config::enabled(config.disk_use_percent) {
        let paths = config.disk_path_list();
        let mut i: usize = 0;
        while i < paths.len()
            invariant
                i <= paths@.len(),
                paths@.len() == disk_path_list(config).len(),
                forall|j: int| 0 <= j < paths@.len() ==> #[trigger] paths@[j]@ == disk_path_list(config)[j],
                out@.len() == 1 + i,
                out@[0]@ == built[0],
                forall|j: int| 1 <= j < out@.len() ==> #[trigger] out@[j]@ == disk_steps(config)[j - 1],
                switched_on(config.disk_use_percent),
                built == seq![plan[0]],
            decreases paths@.len() - i,
        {
            out.push(Step::DiskUse { index: i, path: paths[i].clone() });
            i = i + 1;
        }
    }
    let ghost n = out@.len();
    assert forall|j: int| 0 <= j < n implies #[trigger] out@[j]@ == (built + disk_steps(config))[j] by {}
    proof {
        built = built + disk_steps(config);
    }
    if Config::enabled(config.processor_temperature) {
        out.push(Step::ProcessorTemperature);
    }
    proof {
        built = built + when(switched_on(config.processor_temperature), StepView::ProcessorTemperature);
    }
    if Config::enabled(config.memory_use) {
        out.push(Step::MemoryUse);
    }
    proof {
        built = built + when(switched_on(config.memory_use), StepView::MemoryUse);
    }
    if Config::enabled(config.last_boot) {
        out.push(Step::LastBoot);
    }
    proof {
        built = built + when(switched_on(config.last_boot), StepView::LastBoot);
        assert(built =~= plan);
    }
    out
}

/// What came of carrying out the current step.
#[derive(Debug)]
pub enum Outcome {
    /// The step published nothing (a pause).
    Slept,
    /// The message was handed to the broker.
    Published,
    /// The broker refused or lost the message whose payload is given.
    PublishFailed { payload: String },
}

/// The publishing loop's state: the cycle's steps, the step due next, and the
/// host whose name prefixes every topic. A cycle repeats without end.
pub struct Publisher {
    steps: Vec<Step>,
    position: usize,
    hostname: String,
}

impl Publisher {
    /// The steps of each cycle.
    pub closed spec fn plan(&self) -> Seq<StepView> {
        Seq::new(self.steps@.len(), |i: int| self.steps@[i]@)
    }

    /// The index of the step due next.
    pub closed spec fn pos(&self) -> nat {
        self.position as nat
    }

    /// The host name in every topic.
    pub closed spec fn host(&self) -> Seq<char> {
        self.hostname@
    }

    /// A cycle has at least one step and the position lies inside it.
    pub open spec fn wf(&self) -> bool {
        &&& self.plan().len() > 0
        &&& self.pos() < self.plan().len()
    }

    /// The step due next, as a value.
    pub open spec fn current_spec(&self) -> StepView {
        self.plan()[self.pos() as int]
    }

    /// Starts at the first step of a cycle for `config`, publishing under
    /// `hostname`.
    pub fn new(config: &Config, hostname: &str) -> (r: Publisher)
        ensures
            r.wf(),
            r.plan() == cycle_plan(config),
            r.pos() == 0,
            r.host() == hostname@,
    {
        let steps = cycle_steps(config);
        let r = Publisher { steps, position: 0, hostname: String::from_str(hostname) };
        assert(r.plan() =~= cycle_plan(config));
        r
    }

    /// The step due next.
    pub fn current(&self) -> (r: &Step)
        requires
            self.wf(),
        ensures
            r@ == self.current_spec(),
    {
        &self.steps[self.position]
    }

    /// The topic the step due next publishes under; `None` for a pause.
    pub fn current_topic(&self) -> (r: Option<String>)
        requires
            self.wf(),
        ensures
            r matches Some(t) ==> key_of(self.current_spec()) matches Some(k) && t@ == topic_spec(
                self.host(),
                k,
            ),
            r is None ==> key_of(self.current_spec()) is None,
    {
        match self.steps[self.position].key() {
            Some(k) => Some(topic(self.hostname.as_str(), k.as_str())),
            None => None,
        }
    }

    /// Records what came of the step due next and moves on to the following
    /// step, or to the start of the next cycle after the last. The move does
    /// not depend on the outcome: a failed publish is reported, through the
    /// line returned, and dropped.
    pub fn record(&mut self, outcome: Outcome) -> (r: Option<String>)
        requires
            old(self).wf(),
        ensures
            final(self).wf(),
            final(self).plan() == old(self).plan(),
            final(self).host() == old(self).host(),
            final(self).pos() == (old(self).pos() + 1) % old(self).plan().len(),
            r matches Some(line) ==> outcome matches Outcome::PublishFailed { payload }
                && key_of(old(self).current_spec()) matches Some(k) && line@ == failure_line_spec(
                k,
                topic_spec(old(self).host(), k),
                payload@,
            ),
            r is None ==> !(outcome is PublishFailed) || key_of(old(self).current_spec()) is None,
    {
        let line = match outcome {
            Outcome::PublishFailed { payload } => match self.steps[self.position].key() {
                Some(k) => {
                    let t = topic(self.hostname.as_str(), k.as_str());
                    Some(failure_line(k.as_str(), t.as_str(), payload.as_str()))
                },
                None => None,
            },
            _ => None,
        };
        let ghost len = self.plan().len();
        if self.position < self.steps.len() - 1 {
            self.position = self.position + 1;
            assert(self.pos() == (old(self).pos() + 1) % len) by {
                vstd::arithmetic::div_mod::lemma_small_mod(self.pos(), len);
            }
        } else {
            self.position = 0;
            assert(self.pos() == (old(self).pos() + 1) % len) by {
                vstd::arithmetic::div_mod::lemma_mod_self_0(len as int);
            }
        }
        assert(self.plan() =~= old(self).plan());
        line
    }
}

/// The position of the step due after `k` more steps, starting at `pos` in a
/// cycle of `len` steps, whatever each step's outcome was.
pub open spec fn pos_after(pos: nat, len: nat, k: nat) -> nat
    decreases k,
{
    if k == 0 {
        pos
    } else {
        (pos_after(pos, len, (k - 1) as nat) + 1) % len
    }
}

/// With every metric switched off, a cycle is the pause alone: it sleeps for
/// the sampling window and publishes nothing.
pub proof fn lemma_all_off_only_pauses(c: &Config)
    requires
        !switched_on(c.processor_use),
        !switched_on(c.disk_use_percent),
        !switched_on(c.processor_temperature),
        !switched_on(c.memory_use),
        !switched_on(c.last_boot),
    ensures
        cycle_plan(c) == seq![StepView::Pause { secs: SAMPLE_WINDOW_SECS }],
        forall|i: int| 0 <= i < cycle_plan(c).len() ==> key_of(#[trigger] cycle_plan(c)[i]) is None,
{
    assert(cycle_plan(c) =~= seq![StepView::Pause { secs: SAMPLE_WINDOW_SECS }]);
}

/// With disk use on and a configured list of `N` paths, a cycle holds exactly
/// `N` disk steps, right after the first step: the `i`-th samples the `i`-th
/// path and publishes under `disk_use_percent_disk<i>`.
pub proof fn lemma_one_publish_per_disk(c: &Config, paths: Vec<String>)
    requires
        switched_on(c.disk_use_percent),
        c.disk_paths == Some(paths),
        paths@.len() > 0,
    ensures
        forall|i: int|
            0 <= i < paths@.len() ==> #[trigger] cycle_plan(c)[1 + i] == (StepView::DiskUse {
                index: i as nat,
                path: paths@[i]@,
            }) && key_of(cycle_plan(c)[1 + i]) == Some(disk_key_spec(i as nat)),
        forall|j: int|
            0 <= j < cycle_plan(c).len() && !(1 <= j < 1 + paths@.len()) ==> !(
            #[trigger] cycle_plan(c)[j] is DiskUse),
{
    let plan = cycle_plan(c);
    let n = paths@.len();
    let tail = when(switched_on(c.processor_temperature), StepView::ProcessorTemperature) + when(
        switched_on(c.memory_use),
        StepView::MemoryUse,
    ) + when(switched_on(c.last_boot), StepView::LastBoot);
    assert(disk_steps(c).len() == n);
    assert(plan =~= seq![plan[0]] + disk_steps(c) + tail);
    assert forall|i: int| 0 <= i < n implies #[trigger] plan[1 + i] == (StepView::DiskUse {
        index: i as nat,
        path: paths@[i]@,
    }) && key_of(plan[1 + i]) == Some(disk_key_spec(i as nat)) by {
        assert(plan[1 + i] == disk_steps(c)[i]);
    }
    assert forall|j: int| 0 <= j < plan.len() && !(1 <= j < 1 + n) implies !(
    #[trigger] plan[j] is DiskUse) by {
        if j >= 1 + n {
            assert(plan[j] == tail[j - 1 - n]);
        }
    }
}

/// With memory use the only metric switched on, a cycle pauses and then
/// publishes once, under `server_status/<hostname>/memory_use`; no other topic
/// appears.
pub proof fn lemma_memory_only_cycle(c: &Config, hostname: Seq<char>)
    requires
        !switched_on(c.processor_use),
        !switched_on(c.disk_use_percent),
        !switched_on(c.processor_temperature),
        switched_on(c.memory_use),
        !switched_on(c.last_boot),
    ensures
        cycle_plan(c) == seq![StepView::Pause { secs: SAMPLE_WINDOW_SECS }, StepView::MemoryUse],
        forall|i: int|
            0 <= i < cycle_plan(c).len() && (#[trigger] key_of(cycle_plan(c)[i]) is Some) ==> i
                == 1 && topic_spec(hostname, key_of(cycle_plan(c)[i])->0) == "server_status/"@
                + hostname + "/memory_use"@,
{
    assert(cycle_plan(c) =~= seq![StepView::Pause { secs: SAMPLE_WINDOW_SECS }, StepView::MemoryUse]);
    assert(topic_spec(hostname, "memory_use"@) =~= "server_status/"@ + hostname + "/memory_use"@)
        by {
        reveal_strlit("/");
        reveal_strlit("memory_use");
        reveal_strlit("/memory_use");
    }
}

/// Steps follow one another in a cycle and cycles follow one another, whatever
/// came of each step: `k` steps after `pos` the position is `(pos + k) % len`,
/// so every step of the cycle, from any position, is due again within `len`
/// steps, a failed publish notwithstanding.
pub proof fn lemma_each_step_due_again(pos: nat, len: nat, target: nat)
    requires
        pos < len,
        target < len,
    ensures
        forall|k: nat| #[trigger] pos_after(pos, len, k) == (pos + k) % len,
        pos_after(pos, len, ((target + len - pos) % (len as int)) as nat) == target,
{
    assert forall|k: nat| #[trigger] pos_after(pos, len, k) == (pos + k) % len by {
        lemma_pos_after(pos, len, k);
    }
    let x = (target + len - pos) as int;
    let k = (x % (len as int)) as nat;
    vstd::arithmetic::div_mod::lemma_add_mod_noop_right(pos as int, x, len as int);
    assert(pos + x == target + len);
    vstd::arithmetic::div_mod::lemma_mod_add_multiples_vanish(target as int, len as int);
    vstd::arithmetic::div_mod::lemma_small_mod(target, len);
    assert(pos_after(pos, len, k) == (pos + k) % len);
}

proof fn lemma_pos_after(pos: nat, len: nat, k: nat)
    requires
        pos < len,
    ensures
        pos_after(pos, len, k) == (pos + k) % len,
    decreases k,
{
    if k == 0 {
        vstd::arithmetic::div_mod::lemma_small_mod(pos, len);
    } else {
        lemma_pos_after(pos, len, (k - 1) as nat);
        vstd::arithmetic::div_mod::lemma_add_mod_noop_right(1, (pos + k - 1) as int, len as int);
    }
}

} // verus!
