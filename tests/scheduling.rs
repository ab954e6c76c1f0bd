use star_engine::accessor::{Access, Read, Resource, ResourceId, ResourceStore, SystemData, Write};
use star_engine::scheduler::{should_run, DefaultScheduler, ExecutionPolicy, ExecutionTime, Scheduler, SystemRun};
use star_engine::system::{System, SystemInterface};

struct Score(u64);

impl Resource for Score {
    const ID: ResourceId = 1;
}

struct World {
    score: Score,
}

impl ResourceStore<Score> for World {
    fn resource(&self) -> &Score {
        &self.score
    }
    fn fetch(&self) -> &Score {
        &self.score
    }
    fn fetch_mut(&mut self) -> &mut Score {
        &mut self.score
    }
}

struct Scorer {
    policy: ExecutionPolicy,
    runs: u32,
}

impl System<World> for Scorer {
    type SystemData<'a> = Write<'a, Score> where World: 'a;

    fn policy(&self) -> ExecutionPolicy {
        self.policy
    }
    fn ran(&self, after: &Self) -> bool {
        after.runs == self.runs + 1 && after.policy == self.policy
    }
    fn execution_policy(&self) -> ExecutionPolicy {
        self.policy
    }
    fn execution_time(&self) -> ExecutionTime {
        ExecutionTime::VeryShort
    }
    fn run<'a>(&mut self, mut data: Write<'a, Score>) {
        self.runs += 1;
        let next = data.get().0 + 1;
        data.set(Score(next));
    }
}

fn scorer(policy: ExecutionPolicy) -> Scorer {
    Scorer { policy, runs: 0 }
}

#[test]
fn dont_execute_never_runs_every_tick_always_runs() {
    let mut world = World { score: Score(0) };
    let mut systems = vec![scorer(ExecutionPolicy::DontExecute), scorer(ExecutionPolicy::EveryTick)];
    let mut s = DefaultScheduler::new();
    for _ in 0..25 {
        s.dispatch(&mut world, &mut systems);
    }
    assert_eq!(systems[0].runs, 0);
    assert_eq!(systems[1].runs, 25);
    assert_eq!(world.score.0, 25);
    assert_eq!(s.tick_nonce(), 25);
}

#[test]
fn every_n_ticks_runs_on_multiples() {
    let mut world = World { score: Score(0) };
    let mut systems = vec![scorer(ExecutionPolicy::EveryNTicks(3))];
    let mut s = DefaultScheduler::new();
    let mut ran_on = Vec::new();
    for _ in 0..10 {
        let runs = s.dispatch(&mut world, &mut systems);
        if runs[0].ran {
            ran_on.push(s.tick_nonce());
        }
    }
    assert_eq!(ran_on, vec![3, 6, 9]);
    assert_eq!(systems[0].runs, 3);
}

#[test]
fn zero_cadence_and_other_policies_never_run() {
    let mut world = World { score: Score(0) };
    let mut systems = vec![
        scorer(ExecutionPolicy::EveryNTicks(0)),
        scorer(ExecutionPolicy::OnInitOnly),
        scorer(ExecutionPolicy::EventOnly),
    ];
    let mut s = DefaultScheduler::new();
    for _ in 0..6 {
        let runs = s.dispatch(&mut world, &mut systems);
        assert!(runs.iter().all(|r| !r.ran));
    }
    assert!(systems.iter().all(|x| x.runs == 0));
    assert_eq!(world.score.0, 0);
}

#[test]
fn dispatch_reports_policies_in_list_order() {
    let mut world = World { score: Score(0) };
    let mut systems = vec![scorer(ExecutionPolicy::EveryTick), scorer(ExecutionPolicy::EveryNTicks(2))];
    let mut s = DefaultScheduler::new();
    let runs = s.dispatch(&mut world, &mut systems);
    assert_eq!(
        runs,
        vec![
            SystemRun { policy: ExecutionPolicy::EveryTick, ran: true },
            SystemRun { policy: ExecutionPolicy::EveryNTicks(2), ran: false },
        ]
    );
    let runs = Scheduler::dispatch(&mut s, &mut world, &mut systems);
    assert!(runs[0].ran && runs[1].ran);
}

#[test]
fn should_run_cadence_arithmetic() {
    assert!(should_run(ExecutionPolicy::EveryTick, 0));
    assert!(should_run(ExecutionPolicy::EveryNTicks(4), 8));
    assert!(!should_run(ExecutionPolicy::EveryNTicks(4), 6));
    assert!(!should_run(ExecutionPolicy::EveryNTicks(0), 0));
    assert!(should_run(ExecutionPolicy::EveryNTicks(1), u128::MAX));
    assert!(!should_run(ExecutionPolicy::DontExecute, 5));
    assert!(!should_run(ExecutionPolicy::OnInitOnly, 5));
    assert!(!should_run(ExecutionPolicy::EventOnly, 5));
}

#[test]
fn accessors_declare_reads_and_writes() {
    assert_eq!(<Read<Score> as Access>::reads(), vec![1]);
    assert!(<Read<Score> as Access>::writes().is_empty());
    assert!(<Write<Score> as Access>::reads().is_empty());
    assert_eq!(<Write<Score> as Access>::writes(), vec![1]);
}

#[test]
fn read_handle_sees_world_resource() {
    let mut world = World { score: Score(41) };
    let r = <Read<Score> as SystemData<World>>::fetch(&mut world);
    assert_eq!(r.get().0, 41);
}

#[test]
fn system_interface_runs_on_world() {
    let mut world = World { score: Score(1) };
    let mut sys = scorer(ExecutionPolicy::EveryTick);
    assert_eq!(SystemInterface::execution_policy(&sys), ExecutionPolicy::EveryTick);
    assert_eq!(SystemInterface::<World>::execution_time(&sys), ExecutionTime::VeryShort);
    sys.run_on_world(&mut world);
    assert_eq!(world.score.0, 2);
    assert_eq!(sys.runs, 1);
}

#[test]
fn default_scheduler_starts_at_tick_zero() {
    let s = DefaultScheduler::default();
    assert_eq!(s.tick_nonce(), 0);
}
