use bouncer::messages::Report;
use bouncer::platform::watchdog::{Health, Watchdog, WatchdogAction, WatchdogStep};

#[test]
fn starts_alive_and_a_healthy_probe_is_a_no_op() {
    let mut w = Watchdog::new();
    assert!(w.is_alive());
    assert_eq!(w.observe(Health::Alive), WatchdogStep { action: WatchdogAction::Nothing, report: None });
}

#[test]
fn first_dead_probe_reports_evicted_and_asks_for_reinstall() {
    let mut w = Watchdog::new();
    let step = w.observe(Health::Dead);
    assert_eq!(step.action, WatchdogAction::Reinstall);
    assert_eq!(step.report, Some(Report::HookEvicted));
    assert!(!w.is_alive());
}

#[test]
fn repeated_dead_probes_keep_reinstalling_without_duplicate_reports() {
    let mut w = Watchdog::new();
    w.observe(Health::Dead);
    let step = w.observe(Health::Dead);
    assert_eq!(step.action, WatchdogAction::Reinstall);
    assert_eq!(step.report, None, "no duplicate HookEvicted while still dead");
}

#[test]
fn recovery_reports_reinstalled_exactly_once() {
    let mut w = Watchdog::new();
    w.observe(Health::Dead);
    let recovered = w.observe(Health::Alive);
    assert_eq!(recovered.action, WatchdogAction::Nothing);
    assert_eq!(recovered.report, Some(Report::HookReinstalled));
    assert!(w.is_alive());
    assert_eq!(w.observe(Health::Alive).report, None);
}

#[test]
fn full_evict_then_recover_cycle() {
    let mut w = Watchdog::new();
    assert_eq!(w.observe(Health::Alive).report, None);
    assert_eq!(w.observe(Health::Dead).report, Some(Report::HookEvicted));
    assert_eq!(w.observe(Health::Dead).action, WatchdogAction::Reinstall);
    assert_eq!(w.observe(Health::Alive).report, Some(Report::HookReinstalled));
}

// --- further cases ---

#[test]
fn reports_alternate_over_any_probe_sequence() {
    // Edge-triggered: however the probes fall, the reports alternate Evicted /
    // Reinstalled, starting with Evicted.
    let probes = [
        Health::Alive, Health::Dead, Health::Dead, Health::Alive, Health::Alive, Health::Dead,
        Health::Alive, Health::Dead, Health::Dead, Health::Dead, Health::Alive,
    ];
    let mut w = Watchdog::default();
    let mut reports = Vec::new();
    for p in probes {
        if let Some(r) = w.observe(p).report {
            reports.push(r);
        }
    }
    assert_eq!(
        reports,
        vec![
            Report::HookEvicted,
            Report::HookReinstalled,
            Report::HookEvicted,
            Report::HookReinstalled,
            Report::HookEvicted,
            Report::HookReinstalled,
        ]
    );
}
