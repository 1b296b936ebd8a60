use saddle_procgen_noise::recipe::{push_decimal, RecipeOutline2, RecipeOutline4};
use saddle_procgen_noise::runtime::{PreviewJob, PreviewScheduler, QueueDecision};
use saddle_procgen_noise::worley::{WorleyDistanceMetric, WorleyReturnType};

fn job(name: &str, async_generation: bool) -> PreviewJob<String> {
    PreviewJob {
        request: name.to_string(),
        async_generation,
    }
}

fn generated(decision: QueueDecision<String>) -> Option<(String, bool)> {
    match decision {
        QueueDecision::Idle => None,
        QueueDecision::Spawn(j) => Some((j.request, true)),
        QueueDecision::RunInline(j) => Some((j.request, false)),
    }
}

#[test]
fn sync_first_pass_generates_inline_and_publishes() {
    let mut s = PreviewScheduler::new();
    s.activate();
    let d = s.queue_step(job("warp", false), true, false);
    assert_eq!(generated(d), Some(("warp".to_string(), false)));
    assert!(!s.task_running);
    assert_eq!(s.queued_jobs, 1);
    s.publish(0xabcd);
    assert_eq!(s.completed_jobs, 1);
    assert_eq!(s.last_signature, 0xabcd);
    let quiet = s.queue_step(job("warp", false), false, false);
    assert!(generated(quiet).is_none());
    assert_eq!(s.queued_jobs, 1);
}

#[test]
fn async_change_mid_job_is_replayed_after_completion() {
    let mut s = PreviewScheduler::new();
    s.activate();
    assert_eq!(
        generated(s.queue_step(job("warp", true), true, false)),
        Some(("warp".to_string(), true))
    );
    assert!(s.task_running);
    assert!(!s.pending_request);

    assert!(generated(s.queue_step(job("ridged", true), true, false)).is_none());
    assert!(s.pending_request);

    assert!(generated(s.queue_step(job("ridged", true), false, false)).is_none());
    assert!(s.pending_request);

    s.finish_job();
    s.publish(1);
    assert_eq!(s.completed_jobs, 1);
    assert!(!s.task_running);

    assert_eq!(
        generated(s.queue_step(job("ridged", true), false, false)),
        Some(("ridged".to_string(), true))
    );
    assert!(!s.pending_request);
    s.finish_job();
    s.publish(2);
    assert_eq!(s.completed_jobs, 2);
    assert!(!s.task_running);
    assert!(!s.pending_request);
    assert_eq!(s.queued_jobs, 2);
}

#[test]
fn newest_change_wins_over_held_back_request() {
    let mut s = PreviewScheduler::new();
    s.activate();
    assert_eq!(
        generated(s.queue_step(job("a", true), true, false)),
        Some(("a".to_string(), true))
    );
    assert!(generated(s.queue_step(job("b", true), true, false)).is_none());
    assert!(s.pending_request);
    s.finish_job();
    s.publish(1);

    assert_eq!(
        generated(s.queue_step(job("c", true), true, false)),
        Some(("c".to_string(), true))
    );
    assert!(!s.pending_request);
    assert!(s.queued.is_none());
    assert!(generated(s.queue_step(job("c", true), false, true)).is_none());
    s.finish_job();
    s.publish(3);
    assert_eq!(s.last_signature, 3);
    for _ in 0..4 {
        assert!(generated(s.queue_step(job("c", true), false, false)).is_none());
    }
    assert_eq!(s.completed_jobs, 2);
    assert_eq!(s.queued_jobs, 2);
    assert!(!s.task_running && !s.pending_request);
}

#[test]
fn held_request_survives_many_quiet_passes() {
    let mut s = PreviewScheduler::new();
    s.activate();
    let _ = s.queue_step(job("warp", true), true, false);
    let _ = s.queue_step(job("ridged", true), true, false);
    for _ in 0..100 {
        assert!(generated(s.queue_step(job("ridged", true), false, false)).is_none());
        assert!(s.pending_request && s.task_running);
    }
    s.finish_job();
    s.publish(7);
    assert_eq!(
        generated(s.queue_step(job("ridged", true), false, false)),
        Some(("ridged".to_string(), true))
    );
    for _ in 0..50 {
        assert!(generated(s.queue_step(job("ridged", true), false, true)).is_none());
    }
    s.finish_job();
    s.publish(8);
    for _ in 0..50 {
        assert!(generated(s.queue_step(job("ridged", true), false, false)).is_none());
    }
    assert_eq!(s.last_signature, 8);
    assert_eq!(s.completed_jobs, 2);
    assert!(!s.task_running && !s.pending_request);
}

#[test]
fn change_back_to_running_request_is_dropped() {
    let mut s = PreviewScheduler::new();
    s.activate();
    let _ = s.queue_step(job("a", true), true, false);
    let _ = s.queue_step(job("b", true), true, false);
    assert!(s.pending_request);
    let _ = s.queue_step(job("a", true), true, true);
    assert!(!s.pending_request);
    assert!(s.queued.is_none());
}

#[test]
fn deactivation_clears_the_runtime() {
    let mut s = PreviewScheduler::new();
    s.activate();
    let _ = s.queue_step(job("a", true), true, false);
    let _ = s.queue_step(job("b", true), true, false);
    s.deactivate();
    assert!(!s.active && !s.task_running && !s.pending_request);
    assert!(generated(s.queue_step(job("c", false), true, false)).is_none());
    s.publish(9);
    assert_eq!(s.completed_jobs, 0);
}

#[test]
fn decimal_digits_are_appended() {
    let mut out = String::from("n=");
    push_decimal(&mut out, 0);
    push_decimal(&mut out, 4_294_967_295);
    assert_eq!(out, "n=04294967295");
}

#[test]
fn recipe_descriptions_nest_sources() {
    let fbm = RecipeOutline2::Fbm {
        octaves: 6,
        source: Box::new(RecipeOutline2::Perlin { seed: 42 }),
    };
    assert_eq!(fbm.short_name(), "Fbm");
    assert_eq!(fbm.debug_stack(), "Fbm(octaves=6, source=Perlin(seed=42))");

    let warp = RecipeOutline2::Warp {
        base: Box::new(fbm),
        warp_x: Box::new(RecipeOutline2::Simplex { seed: 302 }),
        warp_y: Box::new(RecipeOutline2::Worley {
            seed: 7,
            return_type: WorleyReturnType::F2MinusF1,
            metric: WorleyDistanceMetric::Manhattan,
        }),
    };
    assert_eq!(
        warp.debug_stack(),
        "Warp(base=Fbm(octaves=6, source=Perlin(seed=42)), x=Simplex(seed=302), \
         y=Worley(seed=7, return=F2MinusF1, metric=Manhattan))"
    );

    let tiled = RecipeOutline2::Tiled {
        source: Box::new(RecipeOutline4::Ridged {
            octaves: 4,
            source: Box::new(RecipeOutline4::Transformed {
                source: Box::new(RecipeOutline4::Value { seed: 0 }),
            }),
        }),
    };
    assert_eq!(tiled.short_name(), "Tiled");
    assert_eq!(
        tiled.debug_stack(),
        "Tiled(source=Ridged4D(octaves=4, source=Transformed4D(source=Value4D(seed=0))))"
    );

    let multi = RecipeOutline2::MultiWarp {
        base: Box::new(RecipeOutline2::Value { seed: 3 }),
        layers: 2,
        amplitude: format!("{:.2}", 0.5f32),
    };
    assert_eq!(multi.short_name(), "MultiWarp");
    assert_eq!(
        multi.debug_stack(),
        "MultiWarp(base=Value(seed=3), layers=2, amp=0.50)"
    );
    assert_eq!(
        RecipeOutline4::Billow {
            octaves: 5,
            source: Box::new(RecipeOutline4::Simplex { seed: 44 })
        }
        .short_name(),
        "Billow4D"
    );
}

#[test]
fn worley_names_match_debug_output() {
    for m in [
        WorleyDistanceMetric::Euclidean,
        WorleyDistanceMetric::Manhattan,
        WorleyDistanceMetric::Chebyshev,
    ] {
        assert_eq!(m.debug_name(), format!("{:?}", m));
    }
    for r in [WorleyReturnType::F1, WorleyReturnType::F2, WorleyReturnType::F2MinusF1] {
        assert_eq!(r.debug_name(), format!("{:?}", r));
    }
}
