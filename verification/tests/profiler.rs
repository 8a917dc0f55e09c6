use sherion::profiler::ScopedTimer;

#[test]
fn scoped_timer_constructs() {
    let _timer = ScopedTimer::new("test_scope");
}
