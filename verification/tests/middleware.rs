use drbot::middleware::{
    timeout_outcome, Context, CorrelationMiddleware, Handler, LoggingMiddleware, MapHandler,
    MetricsMiddleware, Middleware, MiddlewareChain, MiddlewareError, RateLimitMiddleware,
    RetryMiddleware, TimeoutMiddleware,
};
use std::cell::RefCell;
use std::rc::Rc;
use std::time::Duration;

struct EchoHandler;

impl Handler<String, String> for EchoHandler {
    fn handle(&self, _ctx: &mut Context, request: String) -> Result<String, MiddlewareError> {
        Ok(request)
    }
}

struct FailHandler;

impl Handler<String, String> for FailHandler {
    fn handle(&self, _ctx: &mut Context, _request: String) -> Result<String, MiddlewareError> {
        Err(MiddlewareError::ProcessingError("boom".to_string()))
    }
}

struct MetricsWrapper(Rc<RefCell<MetricsMiddleware>>);

impl Middleware<String, String> for MetricsWrapper {
    fn before(&mut self, ctx: &mut Context, _request: &String) -> Result<(), MiddlewareError> {
        self.0.borrow_mut().enter(ctx)
    }

    fn after(&mut self, ctx: &mut Context, result: Result<String, MiddlewareError>) -> Result<String, MiddlewareError> {
        self.0.borrow_mut().leave(ctx, result)
    }
}

struct Recorder(Rc<RefCell<Vec<String>>>, &'static str, bool);

impl Middleware<String, String> for Recorder {
    fn before(&mut self, _ctx: &mut Context, _request: &String) -> Result<(), MiddlewareError> {
        self.0.borrow_mut().push(format!("in {}", self.1));
        if self.2 {
            Err(MiddlewareError::Rejected(self.1.to_string()))
        } else {
            Ok(())
        }
    }

    fn after(&mut self, _ctx: &mut Context, result: Result<String, MiddlewareError>) -> Result<String, MiddlewareError> {
        self.0.borrow_mut().push(format!("out {}", self.1));
        result
    }
}

#[test]
fn test_simple_chain() {
    let mut chain = MiddlewareChain::new(EchoHandler);
    let result = chain.process("hello".to_string());
    assert_eq!(result.unwrap(), "hello");
}

#[test]
fn test_logging_middleware() {
    let mut chain = MiddlewareChain::new(EchoHandler).add(LoggingMiddleware::new("test"));
    let result = chain.process("hello".to_string());
    assert_eq!(result.unwrap(), "hello");
}

#[test]
fn test_timeout_middleware() {
    let mut chain = MiddlewareChain::new(EchoHandler).add(TimeoutMiddleware::new(Duration::from_secs(1)));
    let result = chain.process("hello".to_string());
    assert_eq!(result.unwrap(), "hello");
}

#[test]
fn test_metrics_middleware() {
    let metrics = Rc::new(RefCell::new(MetricsMiddleware::new()));
    let mut chain = MiddlewareChain::new(EchoHandler).add(MetricsWrapper(metrics.clone()));
    chain.process("hello".to_string()).unwrap();
    chain.process("world".to_string()).unwrap();
    assert_eq!(metrics.borrow().requests(), 2);
    assert_eq!(metrics.borrow().errors(), 0);
}

#[test]
fn test_context() {
    let mut ctx = Context::new();
    ctx.set_attribute("key", "value");
    assert_eq!(ctx.get_attribute("key"), Some("value"));
}

#[test]
fn test_map_handler() {
    let mut chain = MiddlewareChain::new(MapHandler::new(|req: String| Ok(req)));
    let result = chain.process("hello".to_string());
    assert_eq!(result.unwrap(), "hello");
}

#[test]
fn test_correlation_middleware() {
    let mut chain = MiddlewareChain::new(EchoHandler).add(CorrelationMiddleware);
    let mut ctx = Context::new();
    chain.process_with_context(&mut ctx, "hello".to_string()).unwrap();
    assert!(ctx.get_attribute("correlation_id").is_some());
}

#[test]
fn middleware_order_and_refusal() {
    let log = Rc::new(RefCell::new(Vec::new()));
    let mut chain = MiddlewareChain::new(EchoHandler)
        .add(Recorder(log.clone(), "a", false))
        .add(Recorder(log.clone(), "b", true))
        .add(Recorder(log.clone(), "c", false));
    let r = chain.process("x".to_string());
    assert_eq!(r.unwrap_err(), MiddlewareError::Rejected("b".to_string()));
    assert_eq!(*log.borrow(), vec!["in a", "in b", "out a"]);
}

#[test]
fn middleware_logging_and_retry_attributes() {
    let mut chain = MiddlewareChain::new(EchoHandler)
        .add(LoggingMiddleware::new("svc"))
        .add(RetryMiddleware::new(3, Duration::from_millis(10)));
    let mut ctx = Context::new();
    chain.process_with_context(&mut ctx, "x".to_string()).unwrap();
    assert_eq!(ctx.get_attribute("middleware.logging"), Some("svc"));
    assert_eq!(ctx.get_attribute("retry.max_attempts"), Some("3"));
    assert!(ctx.get_attribute("duration_ms").is_some());
}

#[test]
fn middleware_correlation_kept_when_present() {
    let mut chain = MiddlewareChain::new(EchoHandler).add(CorrelationMiddleware);
    let mut ctx = Context::new();
    ctx.set_attribute("correlation_id", "mine");
    chain.process_with_context(&mut ctx, "x".to_string()).unwrap();
    assert_eq!(ctx.get_attribute("correlation_id"), Some("mine"));
}

#[test]
fn middleware_metrics_count_errors() {
    let metrics = Rc::new(RefCell::new(MetricsMiddleware::new()));
    let mut chain = MiddlewareChain::new(FailHandler).add(MetricsWrapper(metrics.clone()));
    assert!(chain.process("x".to_string()).is_err());
    assert_eq!(metrics.borrow().requests(), 1);
    assert_eq!(metrics.borrow().errors(), 1);
    let mut m = MetricsMiddleware::new();
    m.count_answer(&Ok::<u8, MiddlewareError>(1), 40);
    assert_eq!(m.total_duration_ms(), 40);
    assert_eq!(m.errors(), 0);
}

#[test]
fn middleware_rate_limit_slots() {
    let mut limit = RateLimitMiddleware::new(2);
    assert!(limit.take_slot(false));
    assert!(limit.take_slot(false));
    assert!(!limit.take_slot(false));
    assert!(limit.take_slot(true));
    let mut chain = MiddlewareChain::new(EchoHandler).add(RateLimitMiddleware::new(1));
    assert!(chain.process("a".to_string()).is_ok());
    let second = chain.process("b".to_string());
    assert_eq!(
        second.unwrap_err().message(),
        "Request rejected: Rate limit exceeded"
    );
}

#[test]
fn middleware_context_attributes_and_elapsed() {
    let mut ctx = Context::new_at(uuid::Uuid::nil(), 1_000);
    ctx.set_attribute("a", "1");
    ctx.set_attribute("b", "2");
    ctx.set_attribute("a", "3");
    assert_eq!(ctx.attributes.len(), 2);
    assert_eq!(ctx.get_attribute("a"), Some("3"));
    assert_eq!(ctx.get_attribute("c"), None);
    assert_eq!(ctx.elapsed_at(1_250), 250);
    assert_eq!(ctx.elapsed_at(500), 0);
    assert_eq!(timeout_outcome(Ok::<u8, MiddlewareError>(7), true), Err(MiddlewareError::Timeout));
    assert_eq!(timeout_outcome(Ok::<u8, MiddlewareError>(7), false), Ok(7));
    assert_eq!(MiddlewareError::ChainBroken.message(), "Chain broken");
}

#[test]
fn timeout_decides_by_elapsed_nanos() {
    let m = TimeoutMiddleware::new_nanos(1_000);
    assert_eq!(m.leave_after(Ok::<u8, MiddlewareError>(7), 1_000), Ok(7));
    assert_eq!(m.leave_after(Ok::<u8, MiddlewareError>(7), 1_001), Err(MiddlewareError::Timeout));
    let zero = TimeoutMiddleware::new_nanos(0);
    assert_eq!(zero.leave_after(Ok::<u8, MiddlewareError>(3), 0), Ok(3));
    assert_eq!(zero.leave_after(Ok::<u8, MiddlewareError>(3), 1), Err(MiddlewareError::Timeout));
}
