//! The registered monitors and when they run.
use vstd::prelude::*;
use crate::channel::key_of;
use crate::channel;
use crate::json::{Json, JsonObject, JsonView};
use crate::skill::types::{LoadedSkill, MonitorDef};
use crate::table::Table;
use crate::text;

verus! {

/// How often a monitor runs where its interval cannot be read, in seconds.
pub const DEFAULT_INTERVAL_SECS: u64 = 30;

/// The nanoseconds of a second.
pub const NANOS_PER_SEC: u128 = 1_000_000_000;

/// A monitor of a resource. Points in time are nanoseconds on a clock that never goes back.
pub struct MonitorInstance {
    pub resource_namespace: String,
    pub resource_name: String,
    pub monitor_def: MonitorDef,
    pub skill_dir: String,
    pub interval_secs: u64,
    pub last_run: Option<u64>,
    pub last_output: Option<Json>,
}

/// A duration in seconds, read from a number with an `s`, an `m` or nothing after it.
pub open spec fn duration_secs(s: Seq<char>) -> Option<nat> {
    let t = text::trimmed(s);
    if text::ends(t, "s"@) {
        text::parsed_unsigned(t.take(t.len() - 1), u64::MAX as nat)
    } else if text::ends(t, "m"@) {
        match text::parsed_unsigned(t.take(t.len() - 1), u64::MAX as nat) {
            Some(n) => Some(n * 60),
            None => None,
        }
    } else {
        text::parsed_unsigned(t, u64::MAX as nat)
    }
}

/// Reads a duration, in seconds.
pub fn parse_duration(s: &str) -> (r: Option<u64>)
    requires
        duration_secs(s@) matches Some(n) ==> n <= u64::MAX,
    ensures
        match r {
            Some(n) => duration_secs(s@) == Some(n as nat),
            None => duration_secs(s@) is None,
        },
{
    proof {
        reveal_strlit("s");
        reveal_strlit("m");
    }
    let t = text::trim(s);
    if let Some(secs) = text::strip_suffix(t.as_str(), "s") {
        text::parse_u64(secs.as_str())
    } else if let Some(mins) = text::strip_suffix(t.as_str(), "m") {
        match text::parse_u64(mins.as_str()) {
            Some(n) => Some(n * 60),
            None => None,
        }
    } else {
        text::parse_u64(t.as_str())
    }
}

/// Tells whether a duration, where it can be read, fits in seconds.
pub fn duration_fits(s: &str) -> (r: bool)
    ensures
        r == (duration_secs(s@) matches Some(n) ==> n <= u64::MAX),
{
    proof {
        reveal_strlit("s");
        reveal_strlit("m");
    }
    let t = text::trim(s);
    if text::strip_suffix(t.as_str(), "s").is_some() {
        true
    } else if let Some(mins) = text::strip_suffix(t.as_str(), "m") {
        match text::parse_u64(mins.as_str()) {
            Some(n) => n <= u64::MAX / 60,
            None => true,
        }
    } else {
        true
    }
}

/// The interval that a text asks for.
pub open spec fn interval_of(s: Seq<char>) -> nat {
    match duration_secs(s) {
        Some(n) => n,
        None => DEFAULT_INTERVAL_SECS as nat,
    }
}

/// Whether the interval of every monitor fits.
pub open spec fn intervals_fit(monitors: Seq<MonitorDef>) -> bool {
    forall|i: int|
        0 <= i < monitors.len() ==> interval_of((#[trigger] monitors[i]).interval@) <= u64::MAX
}

/// Whether a fresh instance stands for a monitor of a resource.
pub open spec fn is_fresh(
    m: MonitorInstance,
    namespace: Seq<char>,
    name: Seq<char>,
    dir: Seq<char>,
    def: MonitorDef,
) -> bool {
    &&& m.resource_namespace@ == namespace
    &&& m.resource_name@ == name
    &&& m.monitor_def == def
    &&& m.skill_dir@ == dir
    &&& m.interval_secs == interval_of(def.interval@)
    &&& m.last_run is None
    &&& m.last_output is None
}

/// Whether a list holds a fresh instance of each monitor of a skill, in order.
pub open spec fn are_fresh(
    list: Seq<MonitorInstance>,
    namespace: Seq<char>,
    name: Seq<char>,
    dir: Seq<char>,
    defs: Seq<MonitorDef>,
) -> bool {
    &&& list.len() == defs.len()
    &&& forall|i: int|
        0 <= i < list.len() ==> is_fresh(#[trigger] list[i], namespace, name, dir, defs[i])
}

/// Whether a monitor is due: it has not run, or its interval has passed.
pub open spec fn is_due(m: MonitorInstance, now: u64) -> bool {
    match m.last_run {
        None => true,
        Some(last) => last <= now && now - last >= m.interval_secs * NANOS_PER_SEC || last > now
            && m.interval_secs == 0,
    }
}

/// The due monitors among the first `n` of a list.
pub open spec fn due_to(list: Seq<MonitorInstance>, now: u64, n: int) -> Seq<MonitorInstance>
    decreases n,
{
    if n <= 0 {
        seq![]
    } else if is_due(list[n - 1], now) {
        due_to(list, now, n - 1).push(list[n - 1])
    } else {
        due_to(list, now, n - 1)
    }
}

/// The due monitors of the first `n` resources.
pub open spec fn due_rows_to(
    rows: Seq<(String, Vec<MonitorInstance>)>,
    now: u64,
    n: int,
) -> Seq<MonitorInstance>
    decreases n,
{
    if n <= 0 {
        seq![]
    } else {
        let list = rows[n - 1].1@;
        due_rows_to(rows, now, n - 1) + due_to(list, now, list.len() as int)
    }
}

/// A monitor after it ran at `now`, where it was due.
pub open spec fn marked(m: MonitorInstance, now: u64) -> MonitorInstance {
    if is_due(m, now) {
        MonitorInstance { last_run: Some(now), ..m }
    } else {
        m
    }
}

/// What is known of a monitor that is due.
pub struct DueMonitor {
    pub namespace: String,
    pub name: String,
    pub monitor: String,
    pub script: String,
    pub parse: String,
}

/// Whether a report is of a monitor.
pub open spec fn reports(d: DueMonitor, m: MonitorInstance) -> bool {
    &&& d.namespace@ == m.resource_namespace@
    &&& d.name@ == m.resource_name@
    &&& d.monitor@ == m.monitor_def.name@
    &&& d.script@ == m.monitor_def.script@
    &&& d.parse@ == m.monitor_def.parse@
}

/// Whether a list reports on monitors, one each, in order.
pub open spec fn reports_all(d: Seq<DueMonitor>, m: Seq<MonitorInstance>) -> bool {
    d.len() == m.len() && forall|i: int| 0 <= i < d.len() ==> reports(#[trigger] d[i], m[i])
}

/// The latest outputs of the first `n` monitors, by monitor.
pub open spec fn outputs_to(list: Seq<MonitorInstance>, n: int) -> Map<Seq<char>, JsonView>
    decreases n,
{
    if n <= 0 {
        Map::empty()
    } else {
        match list[n - 1].last_output {
            Some(output) => outputs_to(list, n - 1).insert(list[n - 1].monitor_def.name@, output@),
            None => outputs_to(list, n - 1),
        }
    }
}

/// A monitor that ran is not due again before its interval has passed.
pub proof fn lemma_not_due_before_interval(m: MonitorInstance, ran: u64, now: u64)
    requires
        m.interval_secs > 0,
        ran <= now,
        now - ran < m.interval_secs * NANOS_PER_SEC,
    ensures
        !is_due(MonitorInstance { last_run: Some(ran), ..m }, now),
{
}

/// The monitors of all resources.
pub struct MonitorRegistry {
    pub monitors: Table<Vec<MonitorInstance>>,
}

impl View for MonitorRegistry {
    type V = Map<Seq<char>, Vec<MonitorInstance>>;

    open spec fn view(&self) -> Map<Seq<char>, Vec<MonitorInstance>> {
        self.monitors@
    }
}

impl MonitorRegistry {
    /// Whether each resource is held once.
    pub open spec fn wf(&self) -> bool {
        self.monitors.distinct()
    }

    /// A registry without monitors.
    pub fn new() -> (r: MonitorRegistry)
        ensures
            r.wf(),
            r@ == Map::<Seq<char>, Vec<MonitorInstance>>::empty(),
            r.monitors.rows@.len() == 0,
    {
        MonitorRegistry { monitors: Table::new() }
    }

    /// Sets the monitors of a resource to those of its skill.
    pub fn register(&mut self, namespace: &str, name: &str, skill: &LoadedSkill)
        requires
            old(self).wf(),
            intervals_fit(skill.config.monitors@),
        ensures
            final(self).wf(),
            ({
                let key = channel::resource_key(namespace@, name@);
                let list = final(self)@[key];
                &&& final(self)@ == old(self)@.insert(key, list)
                &&& are_fresh(
                    list@,
                    namespace@,
                    name@,
                    skill.skill_dir@,
                    skill.config.monitors@,
                )
            }),
    {
        let defs = &skill.config.monitors;
        let mut list: Vec<MonitorInstance> = Vec::new();
        let mut i: usize = 0;
        while i < defs.len()
            invariant
                i <= defs@.len(),
                defs@ == skill.config.monitors@,
                intervals_fit(defs@),
                list@.len() == i,
                forall|k: int|
                    0 <= k < i ==> is_fresh(
                        #[trigger] list@[k],
                        namespace@,
                        name@,
                        skill.skill_dir@,
                        defs@[k],
                    ),
            decreases defs@.len() - i,
        {
            let def = &defs[i];
            assert(interval_of(def.interval@) <= u64::MAX);
            let interval_secs: u64 = match parse_duration(def.interval.as_str()) {
                Some(n) => n,
                None => DEFAULT_INTERVAL_SECS,
            };
            list.push(
                MonitorInstance {
                    resource_namespace: namespace.to_string(),
                    resource_name: name.to_string(),
                    monitor_def: def.clone(),
                    skill_dir: skill.skill_dir.clone(),
                    interval_secs,
                    last_run: None,
                    last_output: None,
                },
            );
            i = i + 1;
        }
        self.monitors.insert(key_of(namespace, name).as_str(), list);
    }

    /// Drops the monitors of a resource.
    pub fn unregister(&mut self, namespace: &str, name: &str)
        requires
            old(self).wf(),
        ensures
            final(self).wf(),
            final(self)@ == old(self)@.remove(channel::resource_key(namespace@, name@)),
    {
        self.monitors.remove(key_of(namespace, name).as_str());
    }

    /// The monitors that are due.
    pub fn due_monitors(&self, now: u64) -> (r: Vec<&MonitorInstance>)
        ensures
            r@.map_values(|m: &MonitorInstance| *m) == due_rows_to(
                self.monitors.rows@,
                now,
                self.monitors.rows@.len() as int,
            ),
    {
        let rows = &self.monitors.rows;
        let mut out: Vec<&MonitorInstance> = Vec::new();
        let mut i: usize = 0;
        assert(out@.map_values(|m: &MonitorInstance| *m) =~= due_rows_to(rows@, now, 0));
        while i < rows.len()
            invariant
                i <= rows@.len(),
                out@.map_values(|m: &MonitorInstance| *m) =~= due_rows_to(rows@, now, i as int),
            decreases rows@.len() - i,
        {
            let list = &rows[i].1;
            let ghost start = out@;
            let mut j: usize = 0;
            assert(out@.map_values(|m: &MonitorInstance| *m) =~= start.map_values(
                |m: &MonitorInstance| *m,
            ) + due_to(list@, now, 0));
            while j < list.len()
                invariant
                    j <= list@.len(),
                    out@.map_values(|m: &MonitorInstance| *m) =~= start.map_values(
                        |m: &MonitorInstance| *m,
                    ) + due_to(list@, now, j as int),
                decreases list@.len() - j,
            {
                let ghost before = out@;
                if check_due(&list[j], now) {
                    out.push(&list[j]);
                    assert(out@.map_values(|m: &MonitorInstance| *m) =~= before.map_values(
                        |m: &MonitorInstance| *m,
                    ).push(list@[j as int]));
                }
                j = j + 1;
                assert(out@.map_values(|m: &MonitorInstance| *m) =~= start.map_values(
                    |m: &MonitorInstance| *m,
                ) + due_to(list@, now, j as int));
            }
            i = i + 1;
        }
        out
    }

    /// Marks the monitors that are due as run at `now`, and reports them.
    pub fn take_due(&mut self, now: u64) -> (r: Vec<DueMonitor>)
        requires
            old(self).wf(),
        ensures
            final(self).wf(),
            reports_all(
                r@,
                due_rows_to(
                    old(self).monitors.rows@,
                    now,
                    old(self).monitors.rows@.len() as int,
                ),
            ),
            final(self).monitors.rows@.len() == old(self).monitors.rows@.len(),
            forall|i: int|
                0 <= i < final(self).monitors.rows@.len() ==> {
                    &&& (#[trigger] final(self).monitors.rows@[i]).0 == old(self).monitors.rows@[i].0
                    &&& final(self).monitors.rows@[i].1@ == old(self).monitors.rows@[i].1@.map_values(
                        |m: MonitorInstance| marked(m, now),
                    )
                },
    {
        let ghost all = self.monitors.rows@;
        let mut out: Vec<DueMonitor> = Vec::new();
        let mut i: usize = 0;
        while i < self.monitors.rows.len()
            invariant
                i <= self.monitors.rows@.len(),
                self.monitors.rows@.len() == all.len(),
                reports_all(out@, due_rows_to(all, now, i as int)),
                forall|k: int|
                    i <= k < all.len() ==> (#[trigger] self.monitors.rows@[k]) == all[k],
                forall|k: int|
                    0 <= k < i ==> {
                        &&& (#[trigger] self.monitors.rows@[k]).0 == all[k].0
                        &&& self.monitors.rows@[k].1@ == all[k].1@.map_values(
                            |m: MonitorInstance| marked(m, now),
                        )
                    },
            decreases self.monitors.rows@.len() - i,
        {
            let row = &mut self.monitors.rows[i];
            take_due_of(&mut row.1, now, &mut out);
            i = i + 1;
        }
        proof {
            assert forall|a: int, b: int| 0 <= a < b < self.monitors.rows@.len() implies (
            #[trigger] self.monitors.rows@[a]).0@ != (#[trigger] self.monitors.rows@[b]).0@ by {
                assert(all[a].0@ != all[b].0@);
            }
        }
        out
    }

    /// The latest outputs of a resource's monitors, by monitor.
    pub fn get_state(&self, namespace: &str, name: &str) -> (r: JsonObject)
        ensures
            r@ == ({
                let key = channel::resource_key(namespace@, name@);
                if self@.contains_key(key) {
                    outputs_to(self@[key]@, self@[key]@.len() as int)
                } else {
                    Map::empty()
                }
            }),
    {
        let mut state = JsonObject::new();
        if let Some(list) = self.monitors.get(key_of(namespace, name).as_str()) {
            let mut i: usize = 0;
            while i < list.len()
                invariant
                    i <= list@.len(),
                    state@ == outputs_to(list@, i as int),
                decreases list@.len() - i,
            {
                if let Some(output) = &list[i].last_output {
                    state.put(list[i].monitor_def.name.as_str(), output.clone());
                }
                i = i + 1;
            }
        }
        state
    }

    /// The monitors of a resource, to be changed.
    pub fn monitors_mut(&mut self, namespace: &str, name: &str) -> (r: Option<
        &mut Vec<MonitorInstance>,
    >)
        requires
            old(self).wf(),
        ensures
            final(self).wf(),
            ({
                let key = channel::resource_key(namespace@, name@);
                match r {
                    Some(list) => {
                        &&& old(self)@.contains_key(key)
                        &&& *list == old(self)@[key]
                        &&& final(self)@ == old(self)@.insert(key, *final(list))
                    },
                    None => !old(self)@.contains_key(key) && final(self)@ == old(self)@,
                }
            }),
    {
        self.monitors.get_mut(key_of(namespace, name).as_str())
    }

    /// Tells whether a resource has monitors.
    pub fn has_monitors(&self, namespace: &str, name: &str) -> (r: bool)
        ensures
            r == ({
                let key = channel::resource_key(namespace@, name@);
                self@.contains_key(key) && self@[key]@.len() > 0
            }),
    {
        match self.monitors.get(key_of(namespace, name).as_str()) {
            Some(list) => list.len() > 0,
            None => false,
        }
    }
}

fn check_due(m: &MonitorInstance, now: u64) -> (r: bool)
    ensures
        r == is_due(*m, now),
{
    match m.last_run {
        None => true,
        Some(last) => {
            if last <= now {
                (now - last) as u128 >= m.interval_secs as u128 * NANOS_PER_SEC
            } else {
                m.interval_secs == 0
            }
        },
    }
}

fn take_due_of(list: &mut Vec<MonitorInstance>, now: u64, out: &mut Vec<DueMonitor>)
    ensures
        final(list)@ == old(list)@.map_values(|m: MonitorInstance| marked(m, now)),
        forall|due: Seq<MonitorInstance>|
            reports_all(old(out)@, due) ==> #[trigger] reports_all(
                final(out)@,
                due + due_to(old(list)@, now, old(list)@.len() as int),
            ),
{
    let ghost all = list@;
    let ghost start = out@;
    let mut j: usize = 0;
    while j < list.len()
        invariant
            j <= list@.len(),
            list@.len() == all.len(),
            forall|k: int| j <= k < all.len() ==> (#[trigger] list@[k]) == all[k],
            forall|k: int| 0 <= k < j ==> (#[trigger] list@[k]) == marked(all[k], now),
            out@.len() == start.len() + due_to(all, now, j as int).len(),
            forall|k: int| 0 <= k < start.len() ==> #[trigger] out@[k] == start[k],
            forall|k: int|
                0 <= k < due_to(all, now, j as int).len() ==> reports(
                    out@[start.len() + k],
                    #[trigger] due_to(all, now, j as int)[k],
                ),
        decreases list@.len() - j,
    {
        if check_due(&list[j], now) {
            out.push(
                DueMonitor {
                    namespace: list[j].resource_namespace.clone(),
                    name: list[j].resource_name.clone(),
                    monitor: list[j].monitor_def.name.clone(),
                    script: list[j].monitor_def.script.clone(),
                    parse: list[j].monitor_def.parse.clone(),
                },
            );
            list[j].last_run = Some(now);
        }
        j = j + 1;
    }
    proof {
        assert(list@ =~= all.map_values(|m: MonitorInstance| marked(m, now)));
        let new = due_to(all, now, all.len() as int);
        assert forall|due: Seq<MonitorInstance>|
            reports_all(start, due) implies #[trigger] reports_all(out@, due + new) by {
            assert forall|i: int| 0 <= i < out@.len() implies reports(
                #[trigger] out@[i],
                (due + new)[i],
            ) by {
                if i < start.len() {
                    assert(out@[i] == start[i]);
                } else {
                    assert(reports(out@[start.len() + (i - start.len())], new[i - start.len()]));
                }
            }
        }
    }
}

// ---------------------------------------------------------------------------
// What becomes of the monitors
// ---------------------------------------------------------------------------
/// A monitor is due exactly when it has never run or its interval has passed since it ran.
pub proof fn lemma_due_when_the_interval_has_passed(m: MonitorInstance, now: u64)
    ensures
        m.last_run is None ==> is_due(m, now),
        m.last_run matches Some(last) ==> (last <= now ==> (is_due(m, now) <==> now - last
            >= m.interval_secs * 1_000_000_000)),
        m.last_run matches Some(last) ==> (last > now ==> (is_due(m, now) <==> m.interval_secs
            == 0)),
{
}

proof fn lemma_due_is_filtered(list: Seq<MonitorInstance>, now: u64, n: int)
    requires
        0 <= n <= list.len(),
    ensures
        due_to(list, now, n) == list.take(n).filter(|m: MonitorInstance| is_due(m, now)),
    decreases n,
{
    reveal(Seq::filter);
    if n > 0 {
        lemma_due_is_filtered(list, now, n - 1);
        assert(list.take(n).drop_last() =~= list.take(n - 1));
        assert(list.take(n).last() == list[n - 1]);
    }
}

/// Of each resource exactly the due monitors are listed, all of them and in their order, behind
/// those of the resources before it.
pub proof fn lemma_due_monitors_of_each_resource(
    rows: Seq<(String, Vec<MonitorInstance>)>,
    now: u64,
    n: int,
)
    requires
        0 < n <= rows.len(),
    ensures
        due_rows_to(rows, now, n) == due_rows_to(rows, now, n - 1) + rows[n - 1].1@.filter(
            |m: MonitorInstance| is_due(m, now),
        ),
        due_rows_to(rows, now, 0).len() == 0,
{
    let list = rows[n - 1].1@;
    lemma_due_is_filtered(list, now, list.len() as int);
    assert(list.take(list.len() as int) =~= list);
}

/// Every monitor of the registry that is due is listed.
pub proof fn lemma_every_due_monitor_is_listed(
    rows: Seq<(String, Vec<MonitorInstance>)>,
    now: u64,
    r: int,
    j: int,
)
    requires
        0 <= r < rows.len(),
        0 <= j < rows[r].1@.len(),
        rows[r].1@[j].last_run matches Some(last) ==> last <= now && now - last
            >= rows[r].1@[j].interval_secs * 1_000_000_000,
    ensures
        due_rows_to(rows, now, rows.len() as int).contains(rows[r].1@[j]),
{
    lemma_listed(rows, now, r, j, rows.len() as int);
}

proof fn lemma_listed(
    rows: Seq<(String, Vec<MonitorInstance>)>,
    now: u64,
    r: int,
    j: int,
    n: int,
)
    requires
        0 <= r < n <= rows.len(),
        0 <= j < rows[r].1@.len(),
        is_due(rows[r].1@[j], now),
    ensures
        due_rows_to(rows, now, n).contains(rows[r].1@[j]),
    decreases n,
{
    let m = rows[r].1@[j];
    let all = due_rows_to(rows, now, n);
    let before = due_rows_to(rows, now, n - 1);
    if r == n - 1 {
        let list = rows[r].1@;
        let pred = |m: MonitorInstance| is_due(m, now);
        lemma_due_is_filtered(list, now, list.len() as int);
        assert(list.take(list.len() as int) =~= list);
        list.lemma_filter_contains(pred, j);
        let mine = list.filter(pred);
        let k = choose|k: int| 0 <= k < mine.len() && mine[k] == m;
        assert(all[before.len() + k] == m);
    } else {
        lemma_listed(rows, now, r, j, n - 1);
        let k = choose|k: int| 0 <= k < before.len() && before[k] == m;
        assert(all[k] == m);
    }
}

/// Every monitor that is listed is one of the registry and is due.
pub proof fn lemma_only_due_monitors_are_listed(
    rows: Seq<(String, Vec<MonitorInstance>)>,
    now: u64,
    k: int,
)
    requires
        0 <= k < due_rows_to(rows, now, rows.len() as int).len(),
    ensures
        ({
            let m = due_rows_to(rows, now, rows.len() as int)[k];
            &&& m.last_run matches Some(last) ==> m.interval_secs == 0 || last <= now && now - last
                >= m.interval_secs * 1_000_000_000
            &&& exists|r: int|
                0 <= r < rows.len() && (#[trigger] rows[r]).1@.contains(m)
        }),
{
    lemma_all_due(rows, now, rows.len() as int, k);
}

proof fn lemma_all_due(rows: Seq<(String, Vec<MonitorInstance>)>, now: u64, n: int, k: int)
    requires
        0 <= n <= rows.len(),
        0 <= k < due_rows_to(rows, now, n).len(),
    ensures
        is_due(due_rows_to(rows, now, n)[k], now),
        exists|r: int|
            0 <= r < n && (#[trigger] rows[r]).1@.contains(due_rows_to(rows, now, n)[k]),
    decreases n,
{
    let before = due_rows_to(rows, now, n - 1);
    if k < before.len() {
        lemma_all_due(rows, now, n - 1, k);
    } else {
        let list = rows[n - 1].1@;
        let pred = |m: MonitorInstance| is_due(m, now);
        lemma_due_is_filtered(list, now, list.len() as int);
        assert(list.take(list.len() as int) =~= list);
        let mine = list.filter(pred);
        list.lemma_filter_pred(pred, k - before.len());
        assert(mine.contains(mine[k - before.len()]));
        list.lemma_filter_contains_rev(pred, mine[k - before.len()]);
    }
}

/// A monitor that was due has run now and is otherwise as it was; one that was not due is
/// untouched. After its run it is due again exactly when its interval has passed.
pub proof fn lemma_due_monitors_are_marked(m: MonitorInstance, now: u64, later: u64)
    ensures
        m.last_run is None ==> marked(m, now).last_run == Some(now),
        marked(m, now).last_run == Some(now) || marked(m, now) == m,
        !is_due(m, now) ==> marked(m, now) == m,
        is_due(m, now) ==> marked(m, now).last_run == Some(now),
        marked(m, now) == (MonitorInstance { last_run: marked(m, now).last_run, ..m }),
        is_due(m, now) && later >= now ==> (is_due(marked(m, now), later) <==> later - now
            >= m.interval_secs * 1_000_000_000),
{
}

/// The report of a due monitor says whose it is, what it is called, which script runs and how its
/// output is read.
pub proof fn lemma_reports_say_what_runs(d: Seq<DueMonitor>, m: Seq<MonitorInstance>, i: int)
    requires
        reports_all(d, m),
        0 <= i < m.len(),
    ensures
        d.len() == m.len(),
        d[i].namespace@ == m[i].resource_namespace@,
        d[i].name@ == m[i].resource_name@,
        d[i].monitor@ == m[i].monitor_def.name@,
        d[i].script@ == m[i].monitor_def.script@,
        d[i].parse@ == m[i].monitor_def.parse@,
{
    assert(reports(d[i], m[i]));
}

/// After a registration each monitor of the skill stands in the list, in order, for the resource,
/// with its interval, and has not run.
pub proof fn lemma_registered_monitors_wait_to_run(
    list: Seq<MonitorInstance>,
    namespace: Seq<char>,
    name: Seq<char>,
    dir: Seq<char>,
    defs: Seq<MonitorDef>,
    i: int,
    now: u64,
)
    requires
        are_fresh(list, namespace, name, dir, defs),
        0 <= i < defs.len(),
    ensures
        list.len() == defs.len(),
        list[i].monitor_def == defs[i],
        list[i].resource_namespace@ == namespace,
        list[i].resource_name@ == name,
        list[i].skill_dir@ == dir,
        list[i].last_run is None,
        list[i].last_output is None,
        is_due(list[i], now),
        duration_secs(defs[i].interval@) matches Some(n) ==> list[i].interval_secs == n,
        duration_secs(defs[i].interval@) is None ==> list[i].interval_secs == 30,
{
    assert(is_fresh(list[i], namespace, name, dir, defs[i]));
}

/// An interval of `n` seconds is `n`, with or without an `s`; with an `m` it is sixty times that.
pub proof fn lemma_intervals_are_counted(n: nat)
    requires
        n <= u64::MAX,
    ensures
        duration_secs(text::decimal(n)) == Some(n),
        duration_secs(text::decimal(n) + "s"@) == Some(n),
        duration_secs(text::decimal(n) + "m"@) == Some(n * 60),
{
    reveal_strlit("s");
    reveal_strlit("m");
    let d = text::decimal(n);
    text::lemma_decimal_parses(n, u64::MAX as nat);
    text::lemma_decimal_is_word(n);
    text::lemma_word_is_trimmed(d);
    text::lemma_word_is_trimmed(d + "s"@);
    text::lemma_word_is_trimmed(d + "m"@);
    assert((d + "s"@).take((d + "s"@).len() - 1) =~= d);
    assert((d + "m"@).take((d + "m"@).len() - 1) =~= d);
    assert((d + "s"@).subrange((d + "s"@).len() - 1, (d + "s"@).len() as int) =~= "s"@);
    assert((d + "m"@).subrange((d + "m"@).len() - 1, (d + "m"@).len() as int) =~= "m"@);
    assert(text::ends(d + "m"@, "s"@) ==> (d + "m"@).subrange(
        (d + "m"@).len() - 1,
        (d + "m"@).len() as int,
    )[0] == 's');
    assert(text::ends(d, "s"@) ==> d.subrange(d.len() - 1, d.len() as int)[0] == 's');
    assert(text::ends(d, "m"@) ==> d.subrange(d.len() - 1, d.len() as int)[0] == 'm');
}

/// The state of a resource holds the latest output of every monitor that has one, under the
/// monitor's name, and nothing else.
pub proof fn lemma_state_holds_every_output(list: Seq<MonitorInstance>, i: int, key: Seq<char>)
    ensures
        0 <= i < list.len() && list[i].last_output is Some && (forall|k: int|
            i < k < list.len() ==> (#[trigger] list[k]).monitor_def.name@
                != list[i].monitor_def.name@) ==> outputs_to(list, list.len() as int).contains_key(
            list[i].monitor_def.name@,
        ) && outputs_to(list, list.len() as int)[list[i].monitor_def.name@]
            == list[i].last_output->0@,
        outputs_to(list, list.len() as int).contains_key(key) ==> exists|k: int|
            0 <= k < list.len() && (#[trigger] list[k]).monitor_def.name@ == key
                && list[k].last_output is Some,
{
    lemma_outputs_hold(list, i, key, list.len() as int);
}

proof fn lemma_outputs_hold(list: Seq<MonitorInstance>, i: int, key: Seq<char>, n: int)
    requires
        0 <= n <= list.len(),
    ensures
        0 <= i < n && list[i].last_output is Some && (forall|k: int|
            i < k < n ==> (#[trigger] list[k]).monitor_def.name@ != list[i].monitor_def.name@)
            ==> outputs_to(list, n).contains_key(list[i].monitor_def.name@) && outputs_to(
            list,
            n,
        )[list[i].monitor_def.name@] == list[i].last_output->0@,
        outputs_to(list, n).contains_key(key) ==> exists|k: int|
            0 <= k < n && (#[trigger] list[k]).monitor_def.name@ == key && list[k].last_output is Some,
    decreases n,
{
    if n > 0 {
        lemma_outputs_hold(list, i, key, n - 1);
        if outputs_to(list, n).contains_key(key) {
            if list[n - 1].last_output is Some && list[n - 1].monitor_def.name@ == key {
            } else {
                assert(outputs_to(list, n - 1).contains_key(key));
                let k = choose|k: int|
                    0 <= k < n - 1 && (#[trigger] list[k]).monitor_def.name@ == key
                        && list[k].last_output is Some;
                assert(0 <= k < n && list[k].monitor_def.name@ == key);
            }
        }
    }
}

/// An interval that has a unit but no number before it is thirty seconds.
pub proof fn lemma_intervals_without_number(other: Seq<char>)
    requires
        text::is_word(other),
        text::parsed_unsigned(other, u64::MAX as nat) is None,
    ensures
        interval_of(other + "s"@) == 30,
        interval_of(other + "m"@) == 30,
{
    reveal_strlit("s");
    reveal_strlit("m");
    let a = other + "s"@;
    let b = other + "m"@;
    text::lemma_word_is_trimmed(a);
    text::lemma_word_is_trimmed(b);
    assert(a.take(a.len() - 1) =~= other);
    assert(b.take(b.len() - 1) =~= other);
    assert(a.subrange(a.len() - 1, a.len() as int) =~= "s"@);
    assert(b.subrange(b.len() - 1, b.len() as int) =~= "m"@);
    assert(text::ends(b, "s"@) ==> b.subrange(b.len() - 1, b.len() as int)[0] == 's');
}

} // verus!
