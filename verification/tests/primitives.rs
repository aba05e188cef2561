//! Unit tests of the counter, histogram, classifier and registry pieces.

use http_metrics::classify::{Class, ClassifyEos, ClassifyResponse, DefaultClassify, Trailers};
use http_metrics::counter::Counter;
use http_metrics::histogram::Histogram;
use http_metrics::registry::Registry;
use http_metrics::stage::{Layer, Service};

#[test]
fn counter_increments() {
    let mut c = Counter::new();
    assert_eq!(c.get(), 0);
    c.incr();
    c.incr();
    assert_eq!(c.get(), 2);
}

#[test]
fn counter_saturates() {
    let mut c = Counter::new();
    c.value = u64::MAX;
    c.incr();
    assert_eq!(c.get(), u64::MAX);
}

#[test]
fn histogram_buckets_durations() {
    let mut h = Histogram::new(vec![10, 100]);
    assert_eq!(h.counts, vec![0, 0, 0]);
    h.add(5);
    h.add(10);
    h.add(11);
    h.add(100);
    h.add(101);
    h.add(100_000);
    assert_eq!(h.counts, vec![2, 2, 2]);
    assert_eq!(h.sum, 5 + 10 + 11 + 100 + 101 + 100_000);
}

#[test]
fn histogram_sum_saturates() {
    let mut h = Histogram::new(vec![10]);
    h.add(u64::MAX - 1);
    h.add(5);
    assert_eq!(h.sum, u64::MAX);
}

#[test]
fn default_classifier_verdicts() {
    let eos = DefaultClassify.start(200);
    assert_eq!(eos.eos(None), Class::Success);
    let eos = DefaultClassify.start(200);
    assert_eq!(
        eos.eos(Some(Trailers { grpc_status: Some(7) })),
        Class::Failure(7)
    );
    let eos = DefaultClassify.start(200);
    assert_eq!(
        eos.eos(Some(Trailers { grpc_status: Some(0) })),
        Class::Success
    );
    let eos = DefaultClassify.start(503);
    assert_eq!(eos.eos(None), Class::Failure(0));
    let eos = DefaultClassify.start(503);
    assert_eq!(eos.eos(Some(Trailers { grpc_status: None })), Class::Failure(0));
    let eos = DefaultClassify.start(200);
    assert_eq!(eos.on_error(), Class::Failure(0));
    assert_eq!(DefaultClassify.on_error(), Class::Failure(0));
}

#[test]
fn registry_resolves_once_per_target() {
    let mut reg = Registry::new(vec![10]);
    let a = Service::new(&mut reg, 42);
    let (_rb, fut) = a.call::<DefaultClassify>(&mut reg, true, None, 1);
    fut.on_error(&mut reg, 2);
    assert_eq!(reg.get_total(42), Some(1));
    // a second stage for the same target sees the same record
    let b = Service::new(&mut reg, 42);
    assert_eq!(b.metrics, Some(42));
    assert_eq!(reg.get_total(42), Some(1));
    assert_eq!(reg.targets(), vec![42]);
}

#[test]
fn registry_reads_absent_target() {
    let reg = Registry::new(vec![10]);
    assert!(!reg.contains(1));
    assert_eq!(reg.get_total(1), None);
    assert_eq!(reg.get_last_update(1), None);
    assert_eq!(reg.get_class_count(1, Some(200), Class::Success), 0);
    assert_eq!(reg.get_bucket_counts(1, Some(200)), None);
    assert_eq!(reg.get_latency_sum(1, Some(200)), 0);
}

#[test]
fn registry_reads_absent_status_as_zeroed() {
    let mut reg = Registry::new(vec![10, 20]);
    Service::new(&mut reg, 1);
    assert_eq!(reg.get_bucket_counts(1, Some(404)), Some(vec![0, 0, 0]));
    assert_eq!(reg.get_latency_sum(1, Some(404)), 0);
    assert_eq!(reg.get_class_count(1, Some(404), Class::Success), 0);
}

#[test]
fn last_update_follows_observations() {
    let mut reg = Registry::new(vec![10]);
    let svc = Service::new(&mut reg, 1);
    assert_eq!(reg.get_last_update(1), Some(0));
    let (_rb, fut) = svc.call::<DefaultClassify>(&mut reg, true, None, 33);
    assert_eq!(reg.get_last_update(1), Some(33));
    let mut body = fut.on_response(200);
    body.on_data(&mut reg, 44);
    assert_eq!(reg.get_last_update(1), Some(44));
    body.on_trailers(&mut reg, None, 55);
    assert_eq!(reg.get_last_update(1), Some(55));
}

#[test]
fn distinct_targets_have_distinct_records() {
    let mut reg = Registry::new(vec![10]);
    let a = Service::new(&mut reg, 1);
    let b = Service::new(&mut reg, 2);
    let (_ra, fa) = a.call::<DefaultClassify>(&mut reg, true, None, 5);
    fa.on_error(&mut reg, 6);
    let (_rb, fb) = b.call::<DefaultClassify>(&mut reg, true, None, 7);
    let mut body = fb.on_response(200);
    body.on_drop(&mut reg, 8);
    assert_eq!(reg.get_total(1), Some(1));
    assert_eq!(reg.get_total(2), Some(1));
    assert_eq!(reg.get_class_count(1, None, Class::Failure(0)), 1);
    assert_eq!(reg.get_class_count(2, None, Class::Failure(0)), 0);
    assert_eq!(reg.get_class_count(2, Some(200), Class::Success), 1);
    assert_eq!(reg.targets(), vec![1, 2]);
}

#[test]
fn layer_factory_builds_stages_over_one_registry() {
    let layer = Layer::new(Registry::new(vec![10]));
    let mut factory = layer.layer();
    let a = factory.new_service(11);
    let b = factory.new_service(12);
    assert_eq!(a.metrics, Some(11));
    assert_eq!(b.metrics, Some(12));
    {
        let reg = factory.registry_mut();
        let (_rb, fut) = a.call::<DefaultClassify>(reg, true, None, 3);
        let mut body = fut.on_response(200);
        body.on_drop(reg, 4);
    }
    assert_eq!(factory.registry().get_total(11), Some(1));
    assert_eq!(factory.registry().get_total(12), Some(0));
    assert_eq!(factory.registry().targets(), vec![11, 12]);
}

#[test]
fn attached_classifier_wins_over_default() {
    let mut reg = Registry::new(vec![10]);
    let svc = Service::new(&mut reg, 1);
    let (_rb, fut) =
        svc.call::<DefaultClassify>(&mut reg, true, Some(DefaultClassify), 1);
    let mut body = fut.on_response(204);
    body.on_drop(&mut reg, 2);
    assert_eq!(reg.get_class_count(1, Some(204), Class::Success), 1);
}
