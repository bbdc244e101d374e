use std::cell::{Cell, RefCell};
use std::rc::Rc;

use relay_utils::{
    relay_loop, Client, FailedClient, MaybeConnectionError, Metrics, MetricsParams,
    StandaloneMetrics,
};
use substrate_prometheus_endpoint::prometheus::Counter;
use substrate_prometheus_endpoint::Registry;

#[derive(Debug)]
struct TestError;

impl MaybeConnectionError for TestError {
    fn is_connection_error(&self) -> bool {
        true
    }
}

#[derive(Clone)]
struct TestClient {
    name: &'static str,
    log: Rc<RefCell<Vec<String>>>,
}

impl TestClient {
    fn new(name: &'static str, log: &Rc<RefCell<Vec<String>>>) -> Self {
        TestClient { name, log: log.clone() }
    }
}

impl Client for TestClient {
    type Error = TestError;

    fn reconnect(&mut self) -> Result<(), TestError> {
        self.log.borrow_mut().push(format!("{}:ok", self.name));
        Ok(())
    }
}

/// A loop metric that records, at registration time, which metric families
/// the registry already holds and which it holds afterwards.
#[derive(Clone)]
struct PrefixProbe {
    before: Rc<RefCell<Vec<String>>>,
    after: Rc<RefCell<Vec<String>>>,
}

impl Metrics for PrefixProbe {
    fn register(&self, registry: &Registry) -> Result<(), String> {
        for family in registry.gather() {
            self.before.borrow_mut().push(family.get_name().to_string());
        }
        let counter =
            Counter::new("requests_total", "Total requests").map_err(|e| format!("{:?}", e))?;
        registry.register(Box::new(counter)).map_err(|e| format!("{:?}", e))?;
        for family in registry.gather() {
            self.after.borrow_mut().push(family.get_name().to_string());
        }
        Ok(())
    }
}

/// A standalone metric with a chosen name, recording whether it was spawned.
struct NamedStandalone {
    name: &'static str,
    spawned: Rc<Cell<bool>>,
}

impl Metrics for NamedStandalone {
    fn register(&self, registry: &Registry) -> Result<(), String> {
        let counter = Counter::new(self.name, "Help text").map_err(|e| format!("{:?}", e))?;
        registry.register(Box::new(counter)).map_err(|e| format!("{:?}", e))
    }
}

impl StandaloneMetrics for NamedStandalone {
    fn spawn(self) {
        self.spawned.set(true);
    }
}

/// A loop metric that registers nothing and just rides along to the task.
#[derive(Clone, Debug, PartialEq)]
struct Carried(u32);

impl Metrics for Carried {
    fn register(&self, _registry: &Registry) -> Result<(), String> {
        Ok(())
    }
}

/// A loop metric whose registration always fails.
#[derive(Clone)]
struct Refused;

impl Metrics for Refused {
    fn register(&self, _registry: &Registry) -> Result<(), String> {
        Err("metric refused".to_string())
    }
}

#[test]
fn loop_metric_registration_failure_aborts_the_builder_chain() {
    let builder = relay_loop(0u8, 0u8).with_metrics("bridge".to_string());
    let error = match builder.loop_metric(Refused) {
        Ok(_) => panic!("a refused registration must fail the builder"),
        Err(error) => error,
    };
    assert_eq!(error, "metric refused");
}

#[test]
fn with_metrics_yields_empty_registry_with_the_given_prefix() {
    let probe = PrefixProbe {
        before: Rc::new(RefCell::new(Vec::new())),
        after: Rc::new(RefCell::new(Vec::new())),
    };
    let builder = relay_loop(0u8, 0u8).with_metrics("bridge".to_string());
    builder.loop_metric(probe.clone()).ok().expect("registration succeeds");
    assert!(probe.before.borrow().is_empty());
    assert_eq!(*probe.after.borrow(), vec!["bridge_requests_total".to_string()]);
}

#[test]
fn duplicate_standalone_name_fails_the_second_registration() {
    let first_spawned = Rc::new(Cell::new(false));
    let second_spawned = Rc::new(Cell::new(false));
    let builder = relay_loop(0u8, 0u8).with_metrics("bridge".to_string());
    let builder = builder
        .standalone_metric(NamedStandalone { name: "lag", spawned: first_spawned.clone() })
        .ok()
        .expect("first registration succeeds");
    assert!(first_spawned.get(), "a registered standalone metric is spawned at once");
    let error = match builder
        .standalone_metric(NamedStandalone { name: "lag", spawned: second_spawned.clone() })
    {
        Ok(_) => panic!("second registration of the same name must fail"),
        Err(error) => error,
    };
    assert!(error.contains("AlreadyReg"), "unexpected error: {}", error);
    assert!(!second_spawned.get(), "a metric that failed to register is not spawned");
}

#[test]
fn expose_none_returns_loop_carrying_the_loop_metric() {
    let log = Rc::new(RefCell::new(Vec::new()));
    let source = TestClient::new("source", &log);
    let target = TestClient::new("target", &log);
    let relay = relay_loop(source, target)
        .with_metrics("bridge".to_string())
        .loop_metric(Carried(7))
        .ok()
        .expect("registration succeeds")
        .expose(None)
        .ok()
        .expect("expose without params always succeeds");
    let seen = RefCell::new(None);
    let task = |_s: TestClient, _t: TestClient, m: Option<Carried>| -> Result<(), FailedClient> {
        *seen.borrow_mut() = m;
        Ok(())
    };
    let result = relay.run_once(&task);
    assert!(matches!(result, Ok(())));
    assert_eq!(*seen.borrow(), Some(Carried(7)));
}

#[test]
fn expose_with_invalid_host_fails_with_a_descriptive_error() {
    let builder = relay_loop(0u8, 0u8).with_metrics("bridge".to_string());
    let error = match builder.expose(Some(MetricsParams {
        host: "not-an-ip".to_string(),
        port: 9616,
    })) {
        Ok(_) => panic!("an unparsable host must fail expose"),
        Err(error) => error,
    };
    assert_eq!(error, "Invalid host not-an-ip is used to expose Prometheus metrics");
}
