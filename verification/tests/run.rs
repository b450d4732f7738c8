use drill::actions::http::{destination, find_header, Method, Outgoing, Response};
use drill::actions::{join, Body, Report, Request, Step};
use drill::benchmark::{compile, request_timeout, worker_threads, Admission, BenchmarkResult, Scheduler};
use drill::checker::{compare, slower_steps};
use drill::config::Config;
use drill::error::{Error, ErrorKind};
use drill::interpolator::Environment;
use drill::iteration::{Effect, Event, Iteration};
use drill::pool::Pool;
use drill::reader::Files;
use drill::stats::compute_stats;
use drill::tags::Tags;
use drill::value::{Context, Value};

fn text(s: &str) -> Value {
    Value::Text(s.to_string())
}

fn object(members: Vec<(&str, Value)>) -> Value {
    Value::Object(members.into_iter().map(|(k, v)| (k.to_string(), v)).collect())
}

fn config_of(doc: &Value) -> Config {
    Config::new(doc, &Environment::new(), false, false, true, false, 10, false).unwrap()
}

fn plan_of(doc: Value) -> Vec<Step> {
    let mut files = Files::new();
    files.documents.push(("plan.yml".to_string(), vec![doc]));
    compile("plan.yml", &Tags::new(None, None).unwrap(), &files).unwrap()
}

fn ok(status: u16) -> Response {
    Response { status, headers: vec![], cookies: vec![], body: Value::Null }
}

// Runs one iteration to its end, answering each call with `respond`.
fn run_iteration(plan: &[Step], config: &Config, pool: &mut Pool, number: i64, respond: &mut dyn FnMut(&Outgoing) -> Option<Response>) -> Result<Iteration, Error> {
    let plan = plan.to_vec();
    let env = Environment::new();
    let mut iteration = Iteration::new(number, &config.base);
    loop {
        let event = match iteration.step(&plan, &env, pool, config)? {
            Effect::Continue => continue,
            Effect::Finished => return Ok(iteration),
            Effect::Sleep { seconds } => Event::Slept { elapsed: seconds * 1_000_000 },
            Effect::Run { command } => Event::Ran { output: Some(format!("ran {}\n", command)), elapsed: 7 },
            Effect::Send(outgoing) => Event::Answered { response: respond(&outgoing), elapsed: 1500 },
        };
        iteration.resume(&plan, config, &event)?;
    }
}

fn run(plan: &[Step], config: &Config, respond: &mut dyn FnMut(&Outgoing) -> Option<Response>) -> Result<(BenchmarkResult, Pool), Error> {
    let mut scheduler = Scheduler::for_config(config)?;
    let mut pool = Pool::new();
    let mut waiting: Vec<i64> = Vec::new();
    loop {
        match scheduler.next() {
            Admission::Start { iteration, .. } => waiting.push(iteration),
            Admission::Wait => {
                let number = waiting.remove(0);
                let done = run_iteration(plan, config, &mut pool, number, respond)?;
                scheduler = scheduler.finish(done.reports).0;
            }
            Admission::Done => return Ok((scheduler.into_result(0), pool)),
        }
        if scheduler.running() as usize == waiting.len() && waiting.len() as i64 == config.concurrency.min(config.iterations) {
            continue;
        }
    }
}

#[test]
fn end_to_end_two_iterations_of_one_request() {
    let doc = object(vec![
        ("base", text("http://x")),
        ("iterations", Value::Integer(2)),
        ("concurrency", Value::Integer(2)),
        ("rampup", Value::Integer(0)),
        ("plan", Value::Array(vec![object(vec![("name", text("ping")), ("request", object(vec![("url", text("/"))]))])])),
    ]);
    let config = config_of(&doc);
    let plan = plan_of(doc);
    let mut seen: Vec<Outgoing> = Vec::new();
    let (result, pool) = run(&plan, &config, &mut |o| {
        seen.push(Outgoing { name: o.name.clone(), url: o.url.clone(), destination: o.destination.clone(), client: o.client, created: o.created, method: o.method, headers: o.headers.clone(), body: None, timeout: o.timeout });
        Some(ok(200))
    })
    .unwrap();
    assert_eq!(result.reports.len(), 2);
    for reports in &result.reports {
        assert_eq!(reports.len(), 1);
        assert_eq!(reports[0].name, "ping");
        assert_eq!(reports[0].status, 200);
    }
    assert_eq!(seen.len(), 2);
    assert_eq!(seen[0].url, "http://x/");
    assert_eq!(seen[0].destination, "http://x:0");
    assert_eq!(seen[0].method, Method::Get);
    assert_eq!(seen[0].headers, vec![("user-agent".to_string(), "drill".to_string())]);
    assert_eq!((seen[0].client, seen[0].created), (0, true));
    assert_eq!((seen[1].client, seen[1].created), (0, false));
    assert_eq!(pool.destinations, vec!["http://x:0"]);
}

#[test]
fn scheduler_never_runs_more_than_allowed() {
    let mut scheduler = Scheduler::new(1, 3, 0).unwrap();
    let mut started = Vec::new();
    let mut most = 0;
    loop {
        match scheduler.next() {
            Admission::Start { iteration, delay } => {
                started.push((iteration, delay));
            }
            Admission::Wait => {
                assert_eq!(scheduler.running(), 1);
                let (s, taken) = scheduler.finish(vec![]);
                assert!(taken);
                scheduler = s;
            }
            Admission::Done => break,
        }
        most = most.max(scheduler.running());
        assert!(scheduler.running() <= 1);
    }
    assert_eq!(most, 1);
    assert_eq!(started, vec![(0, 0), (1, 0), (2, 0)]);
    assert_eq!(scheduler.progress(), (3, 3));
    assert!(scheduler.is_done());
    assert_eq!(scheduler.into_result(42).reports.len(), 3);
}

#[test]
fn scheduler_admits_the_next_as_soon_as_one_ends() {
    let mut scheduler = Scheduler::new(2, 5, 0).unwrap();
    assert_eq!(scheduler.next(), Admission::Start { iteration: 0, delay: 0 });
    assert_eq!(scheduler.next(), Admission::Start { iteration: 1, delay: 0 });
    assert_eq!(scheduler.next(), Admission::Wait);
    assert_eq!(scheduler.next(), Admission::Wait);
    let report = |name: &str| vec![Report { name: name.to_string(), duration: 1, status: 200 }];
    scheduler = scheduler.finish(report("b")).0;
    assert_eq!(scheduler.next(), Admission::Start { iteration: 2, delay: 0 });
    assert_eq!(scheduler.next(), Admission::Wait);
    scheduler = scheduler.finish(report("a")).0;
    scheduler = scheduler.finish(report("c")).0;
    assert_eq!(scheduler.next(), Admission::Start { iteration: 3, delay: 0 });
    assert_eq!(scheduler.next(), Admission::Start { iteration: 4, delay: 0 });
    assert_eq!(scheduler.next(), Admission::Wait);
    scheduler = scheduler.finish(report("d")).0;
    assert_eq!(scheduler.next(), Admission::Wait);
    scheduler = scheduler.finish(report("e")).0;
    assert_eq!(scheduler.next(), Admission::Done);
    let (scheduler, taken) = scheduler.finish(report("f"));
    assert!(!taken);
    let result = scheduler.into_result(9);
    assert_eq!(result.duration, 9);
    let names: Vec<&str> = result.reports.iter().map(|r| r[0].name.as_str()).collect();
    assert_eq!(names, vec!["b", "a", "c", "d", "e"]);
}

#[test]
fn ramp_up_spreads_the_starts() {
    let mut scheduler = Scheduler::new(5, 5, 10).unwrap();
    for i in 0..5 {
        assert_eq!(scheduler.next(), Admission::Start { iteration: i, delay: (i * 2) as u64 });
    }
    assert_eq!(scheduler.next(), Admission::Wait);
    let mut uneven = Scheduler::new(3, 3, 10).unwrap();
    for i in 0..3 {
        assert_eq!(uneven.next(), Admission::Start { iteration: i, delay: (i * 3) as u64 });
    }
    let mut short = Scheduler::new(1, 4, 3).unwrap();
    assert_eq!(short.next(), Admission::Start { iteration: 0, delay: 0 });
    short = short.finish(vec![]).0;
    assert_eq!(short.next(), Admission::Start { iteration: 1, delay: 0 });
    let mut negative = Scheduler::new(1, 1, -5).unwrap();
    assert_eq!(negative.next(), Admission::Start { iteration: 0, delay: 0 });
}

#[test]
fn scheduler_refuses_bad_settings() {
    assert_eq!(Scheduler::new(3, 2, 0).err().unwrap().kind, ErrorKind::ConcurrencyTooHigh);
    assert_eq!(Scheduler::new(0, 2, 0).err().unwrap().kind, ErrorKind::NoConcurrency);
    assert_eq!(Scheduler::new(0, 0, 0).err().unwrap().kind, ErrorKind::NoConcurrency);
    assert_eq!(Scheduler::new(-1, 5, 0).err().unwrap().detail, "-1");
    let mut capture = Scheduler::capture();
    assert_eq!(capture.next(), Admission::Start { iteration: 0, delay: 0 });
    assert_eq!(capture.next(), Admission::Wait);
    capture = capture.finish(vec![]).0;
    assert_eq!(capture.next(), Admission::Done);
}

#[test]
fn same_destination_reuses_the_client() {
    let mut pool = Pool::new();
    assert_eq!(pool.get_or_create("http://a:0"), (0, true));
    assert_eq!(pool.get_or_create("http://b:0"), (1, true));
    assert_eq!(pool.get_or_create("http://a:0"), (0, false));
    assert_eq!(pool.get_or_create("http://b:0"), (1, false));
    assert_eq!(pool.get_or_create("https://a:0"), (2, true));
    assert_eq!(pool.len(), 3);
}

#[test]
fn transport_failure_is_recorded_and_the_next_step_runs() {
    let doc = object(vec![
        ("base", text("http://x")),
        (
            "plan",
            Value::Array(vec![
                object(vec![("name", text("down")), ("assign", text("saved")), ("request", object(vec![("url", text("/down"))]))]),
                object(vec![("name", text("after {{ saved }}")), ("request", object(vec![("url", text("/next"))]))]),
            ]),
        ),
    ]);
    let mut config = config_of(&doc);
    config.relaxed_interpolations = true;
    let plan = plan_of(doc);
    let mut pool = Pool::new();
    let done = run_iteration(&plan, &config, &mut pool, 0, &mut |o| if o.url.ends_with("/down") { None } else { Some(ok(204)) }).unwrap();
    let got: Vec<(&str, u16, u64)> = done.reports.iter().map(|r| (r.name.as_str(), r.status, r.duration)).collect();
    assert_eq!(got, vec![("down", 520, 1500), ("after {{ saved }}", 204, 1500)]);
    assert_eq!(done.position, 2);
    assert!(done.context.get("saved").is_none());
}

#[test]
fn assertion_mismatch_aborts_and_match_reports_nothing() {
    let entry = |value: &str| {
        object(vec![(
            "plan",
            Value::Array(vec![
                object(vec![("name", text("set")), ("assign", object(vec![("key", text("k")), ("value", text("v{{ iteration }}"))]))]),
                object(vec![("name", text("same")), ("assert", object(vec![("key", text("k")), ("value", text(value))]))]),
            ]),
        )])
    };
    let good = entry("v{{ iteration }}");
    let config = config_of(&good);
    let mut pool = Pool::new();
    let done = run_iteration(&plan_of(good), &config, &mut pool, 4, &mut |_| None).unwrap();
    assert_eq!(done.context.get("k"), Some(&text("v4")));
    assert_eq!(done.reports, vec![Report { name: "set".to_string(), duration: 0, status: 200 }]);
    let bad = entry("other");
    let err = run_iteration(&plan_of(bad), &config, &mut pool, 4, &mut |_| None).unwrap_err();
    assert_eq!(err.kind, ErrorKind::AssertionMismatched);
    assert_eq!(err.message(), "Assertion mismatched: v4 != other");
    let missing = object(vec![("plan", Value::Array(vec![object(vec![("name", text("none")), ("assert", object(vec![("key", text("nope")), ("value", text(""))]))])]))]);
    let err = run_iteration(&plan_of(missing), &config, &mut pool, 0, &mut |_| None).unwrap_err();
    assert_eq!((err.kind, err.detail.as_str()), (ErrorKind::UnknownVariable, "nope"));
}

#[test]
fn iteration_starts_with_its_number_and_the_base() {
    let iteration = Iteration::new(-3, "http://base");
    assert_eq!(iteration.number, -3);
    assert_eq!(iteration.context.entries, vec![("base".to_string(), text("http://base")), ("iteration".to_string(), text("-3"))]);
    assert!(iteration.reports.is_empty());
    assert_eq!((iteration.position, iteration.waiting), (0, false));
}

#[test]
fn delay_and_exec_ask_for_outside_work() {
    let doc = object(vec![(
        "plan",
        Value::Array(vec![
            object(vec![("name", text("wait")), ("delay", object(vec![("seconds", Value::Integer(3))]))]),
            object(vec![("name", text("run")), ("exec", object(vec![("command", text("echo {{ iteration }}"))])), ("assign", text("out"))]),
            object(vec![("name", text("quiet")), ("exec", object(vec![("command", text("true"))]))]),
        ]),
    )]);
    let config = config_of(&doc);
    let plan = plan_of(doc);
    let env = Environment::new();
    let mut pool = Pool::new();
    let mut iteration = Iteration::new(1, "");
    assert_eq!(iteration.resume(&plan, &config, &Event::Slept { elapsed: 1 }).unwrap_err().kind, ErrorKind::UnexpectedEvent);
    assert_eq!(iteration.step(&plan, &env, &mut pool, &config), Ok(Effect::Sleep { seconds: 3 }));
    assert_eq!(iteration.step(&plan, &env, &mut pool, &config).unwrap_err().kind, ErrorKind::UnexpectedEvent);
    assert_eq!(iteration.resume(&plan, &config, &Event::Ran { output: None, elapsed: 1 }).unwrap_err().kind, ErrorKind::UnexpectedEvent);
    assert!(iteration.waiting);
    iteration.resume(&plan, &config, &Event::Slept { elapsed: 3_000_123 }).unwrap();
    assert_eq!(iteration.step(&plan, &env, &mut pool, &config), Ok(Effect::Run { command: "echo 1".to_string() }));
    iteration.resume(&plan, &config, &Event::Ran { output: Some("1 \t\n\n".to_string()), elapsed: 55 }).unwrap();
    assert_eq!(iteration.context.get("out"), Some(&text("1")));
    assert_eq!(iteration.step(&plan, &env, &mut pool, &config), Ok(Effect::Run { command: "true".to_string() }));
    let err = iteration.resume(&plan, &config, &Event::Ran { output: None, elapsed: 1 }).unwrap_err();
    assert_eq!((err.kind, err.detail.as_str()), (ErrorKind::ExecFailed, "true"));
    let names: Vec<(&str, u64, u16)> = iteration.reports.iter().map(|r| (r.name.as_str(), r.duration, r.status)).collect();
    assert_eq!(names, vec![("wait", 3_000_123, 200), ("run", 55, 200)]);
    let mut finished = Iteration::new(0, "");
    finished.position = 3;
    assert_eq!(finished.step(&plan, &env, &mut pool, &config), Ok(Effect::Finished));
}

fn request(members: Vec<(&str, Value)>, more: Vec<(&str, Value)>) -> Request {
    let mut all = vec![("name", text("call {{ item }}")), ("request", object(members))];
    all.extend(more);
    Request::new(&object(all), Some(text("it")), Some(5), &Files::new()).unwrap()
}

fn base_config() -> Config {
    let doc = object(vec![
        ("base", text("http://host:8080")),
        ("default_headers", object(vec![("Accept", text("*/*")), ("X-Run", text("{{ kept }}")), ("skipped", Value::Integer(1))])),
        ("copy_headers", Value::Array(vec![text("X-Token"), Value::Integer(2), text("absent")])),
    ]);
    config_of(&doc)
}

#[test]
fn request_is_put_together_from_store_and_config() {
    let config = base_config();
    let env = Environment { vars: vec![("TOKEN".to_string(), "t0k".to_string())] };
    let mut pool = Pool::new();
    let mut context = Iteration::new(2, &config.base).context;
    context.insert("cookies".to_string(), object(vec![("session", text("abc")), ("n", Value::Integer(3))]));
    let q = request(
        vec![
            ("url", text("/items/{{ item }}/{{ index }}?i={{ iteration }}")),
            ("method", text("post")),
            ("body", text("{\"token\": \"{{ TOKEN }}\"}")),
            ("headers", object(vec![("Authorization", text("Bearer {{ TOKEN }}")), ("ACCEPT", text("text/plain")), ("User-Agent", text("mine"))])),
        ],
        vec![],
    );
    let o = q.prepare(&mut context, &env, &mut pool, &config).unwrap();
    assert_eq!(o.name, "call it");
    assert_eq!(o.url, "http://host:8080/items/it/5?i=2");
    assert_eq!(o.destination, "http://host:8080");
    assert_eq!(o.method, Method::Post);
    assert_eq!(o.body, Some(Body::Template("{\"token\": \"t0k\"}".to_string())));
    assert_eq!(o.timeout, 10);
    assert_eq!((o.client, o.created), (0, true));
    let headers: Vec<(&str, &str)> = o.headers.iter().map(|(k, v)| (k.as_str(), v.as_str())).collect();
    assert_eq!(headers, vec![("user-agent", "mine"), ("cookie", "session=\"abc\";n=3"), ("accept", "text/plain"), ("x-run", "{{ kept }}"), ("authorization", "Bearer t0k")]);
    assert_eq!(context.get("item"), Some(&text("it")));
    assert_eq!(context.get("index"), Some(&Value::Integer(5)));
}

#[test]
fn request_failures_leave_the_pool_alone() {
    let config = base_config();
    let env = Environment::new();
    let mut pool = Pool::new();
    let kind = |q: Request, context: &mut Context, pool: &mut Pool| q.prepare(context, &env, pool, &config).unwrap_err().kind;
    let mut context = Iteration::new(0, &config.base).context;
    assert_eq!(kind(request(vec![("url", text("/{{ nope }}"))], vec![]), &mut context, &mut pool), ErrorKind::UnknownVariable);
    assert_eq!(kind(request(vec![("url", text("not a url"))], vec![]), &mut context, &mut pool), ErrorKind::InvalidUrl);
    assert_eq!(kind(request(vec![("url", text(""))], vec![]), &mut context, &mut pool), ErrorKind::InvalidUrl);
    assert_eq!(kind(request(vec![("url", text("mailto:a@b.c"))], vec![]), &mut context, &mut pool), ErrorKind::InvalidUrl);
    assert_eq!(kind(request(vec![("url", text("/")), ("method", text("fetch"))], vec![]), &mut context, &mut pool), ErrorKind::UnknownMethod);
    assert_eq!(kind(request(vec![("url", text("/")), ("method", text("PUT")), ("body", text("{{ nope }}"))], vec![]), &mut context, &mut pool), ErrorKind::UnknownVariable);
    assert_eq!(kind(request(vec![("url", text("/")), ("headers", object(vec![("a", text("{{ nope }}"))]))], vec![]), &mut context, &mut pool), ErrorKind::UnknownVariable);
    let mut bare = Context::new();
    assert_eq!(kind(request(vec![("url", text("/"))], vec![]), &mut bare, &mut pool), ErrorKind::UnknownBase);
    bare.insert("base".to_string(), Value::Integer(1));
    assert_eq!(kind(request(vec![("url", text("/"))], vec![]), &mut bare, &mut pool), ErrorKind::WrongBase);
    context.insert("cookies".to_string(), text("no mapping"));
    assert_eq!(kind(request(vec![("url", text("/"))], vec![]), &mut context, &mut pool), ErrorKind::InvalidCookies);
    assert_eq!(pool.len(), 0);
}

#[test]
fn destinations_name_scheme_host_and_port() {
    assert_eq!(destination("http://example.com/path?q=1").unwrap(), "http://example.com:0");
    assert_eq!(destination("https://Example.com:8443/").unwrap(), "https://example.com:8443");
    assert_eq!(destination("http://example.com:80/").unwrap(), "http://example.com:0");
    assert_eq!(destination("http://127.0.0.1:3000").unwrap(), "http://127.0.0.1:3000");
    assert_eq!(destination("http://[::1]:9/").unwrap(), "http://[::1]:9");
    for bad in ["", "/relative", "example.com", "http://", "data:text/plain,hi", "unix:/run/foo.socket"] {
        let err = destination(bad).unwrap_err();
        assert_eq!((err.kind, err.detail.as_str()), (ErrorKind::InvalidUrl, bad));
    }
}

#[test]
fn response_is_stored_in_the_store() {
    let config = base_config();
    let q = request(vec![("url", text("/"))], vec![("assign", text("login"))]);
    let mut context = Context::new();
    context.insert("cookies".to_string(), object(vec![("old", text("1")), ("session", text("stale"))]));
    let mut reports = Vec::new();
    let response = Response {
        status: 201,
        headers: vec![("content-type".to_string(), "application/json".to_string()), ("x-token".to_string(), "secret".to_string()), ("x-token".to_string(), "second".to_string())],
        cookies: vec![("session".to_string(), "fresh".to_string()), ("lang".to_string(), "en".to_string())],
        body: object(vec![("id", Value::Integer(7))]),
    };
    q.complete(&mut context, &mut reports, &config, Some(&response), 2500).unwrap();
    assert_eq!(reports, vec![Report { name: "call {{ item }}".to_string(), duration: 2500, status: 201 }]);
    assert_eq!(context.get("cookies"), Some(&object(vec![("lang", text("en")), ("old", text("1")), ("session", text("fresh"))])));
    assert_eq!(context.get("X-Token"), Some(&text("secret")));
    assert_eq!(context.get("absent"), None);
    assert_eq!(
        context.get("login"),
        Some(&object(vec![
            ("body", object(vec![("id", Value::Integer(7))])),
            ("headers", object(vec![("content-type", text("application/json")), ("x-token", text("second"))])),
            ("status", Value::Integer(201)),
        ]))
    );
    let mut plain = Context::new();
    request(vec![("url", text("/"))], vec![]).complete(&mut plain, &mut reports, &config, Some(&ok(500)), 1).unwrap();
    assert_eq!(plain.len(), 0);
    assert_eq!(reports[1].status, 500);
    request(vec![("url", text("/"))], vec![]).complete(&mut plain, &mut reports, &config, None, 9).unwrap();
    assert_eq!((reports[2].status, reports[2].duration), (520, 9));
    let mut first = Context::new();
    let cookie = Response { status: 200, headers: vec![], cookies: vec![("a".to_string(), "1".to_string())], body: Value::Null };
    q.complete(&mut first, &mut reports, &config, Some(&cookie), 1).unwrap();
    assert_eq!(first.get("cookies"), Some(&object(vec![("a", text("1"))])));
    let mut broken = Context::new();
    broken.insert("cookies".to_string(), Value::Integer(1));
    assert_eq!(q.complete(&mut broken, &mut reports, &config, Some(&cookie), 1).unwrap_err().kind, ErrorKind::InvalidCookies);
    assert_eq!(reports.len(), 5);
    assert_eq!(find_header(&response.headers, "X-TOKEN"), Some(&"secret".to_string()));
}

#[test]
fn plan_without_steps_is_refused() {
    let mut files = Files::new();
    files.documents.push(("plan.yml".to_string(), vec![object(vec![("plan", Value::Array(vec![]))])]));
    let err = compile("plan.yml", &Tags::new(None, None).unwrap(), &files).unwrap_err();
    assert_eq!((err.kind, err.detail.as_str()), (ErrorKind::EmptyBenchmark, "plan.yml"));
    let err = compile("plan.yml", &Tags::new(None, None).unwrap(), &Files::new()).unwrap_err();
    assert_eq!(err.kind, ErrorKind::MissingDocument);
}

#[test]
fn timeouts_and_threads() {
    assert_eq!(request_timeout(None), 10);
    assert_eq!(request_timeout(Some("5")), 120);
    assert_eq!(request_timeout(Some("120")), 120);
    assert_eq!(request_timeout(Some("300")), 300);
    assert_eq!(request_timeout(Some("soon")), 120);
    assert_eq!(request_timeout(Some("-1")), 120);
    assert_eq!(request_timeout(Some("18446744073709551615")), u64::MAX);
    assert_eq!(request_timeout(Some("18446744073709551616")), 120);
    assert_eq!(worker_threads(8, 3), 3);
    assert_eq!(worker_threads(2, 3), 2);
    assert_eq!(worker_threads(4, 4), 4);
    assert_eq!(worker_threads(4, 0), 0);
    assert_eq!(worker_threads(4, -2), 0);
}

#[test]
fn reports_are_written_as_records() {
    let reports = vec![Report { name: "a".to_string(), duration: 12_345, status: 200 }, Report { name: "b c".to_string(), duration: 7, status: 520 }];
    assert_eq!(reports[0].record(), "\n- name: a\n  duration: 12.345\n  status: 200\n");
    assert_eq!(reports[1].record(), "\n- name: b c\n  duration: 0.007\n  status: 520\n");
    assert_eq!(join(&reports, ""), "\n- name: a\n  duration: 12.345\n  status: 200\n\n- name: b c\n  duration: 0.007\n  status: 520\n");
    assert_eq!(join(&reports[..1].to_vec(), ", "), reports[0].record());
    assert_eq!(join(&reports, "|"), format!("{}|{}", reports[0].record(), reports[1].record()));
    assert_eq!(join(&Vec::new(), "|"), "");
    let big = Report { name: String::new(), duration: u64::MAX, status: 0 };
    assert_eq!(big.record(), "\n- name: \n  duration: 18446744073709551.615\n  status: 0\n");
}

#[test]
fn statuses_are_counted() {
    let report = |status: u16| Report { name: "r".to_string(), duration: 1, status };
    let stats = compute_stats(&vec![report(200), report(299), report(199), report(300), report(520), report(204), report(0)]);
    assert_eq!((stats.total_requests, stats.successful_requests, stats.failed_requests), (7, 3, 4));
    let none = compute_stats(&Vec::new());
    assert_eq!((none.total_requests, none.successful_requests, none.failed_requests), (0, 0, 0));
}

#[test]
fn slower_steps_are_counted() {
    let report = |duration: u64| Report { name: "r".to_string(), duration, status: 200 };
    let recorded = vec![1000, 2000];
    assert_eq!(compare(&vec![vec![report(1100), report(1900)], vec![report(900)]], &recorded, 100), Ok(()));
    assert_eq!(compare(&vec![vec![report(1101), report(1900)], vec![report(5000), report(2101), report(99999)]], &recorded, 100), Err(3));
    assert_eq!(compare(&Vec::new(), &recorded, 0), Ok(()));
    let slow: Vec<(String, u64)> = slower_steps(&vec![vec![report(1101), report(1900)], vec![report(5000), report(2101), report(99999)]], &recorded, 100).into_iter().map(|s| (s.name, s.delta)).collect();
    assert_eq!(slow, vec![("r".to_string(), 101), ("r".to_string(), 4000), ("r".to_string(), 101)]);
    assert_eq!(compare(&vec![vec![report(u64::MAX)]], &vec![0], u64::MAX - 1), Err(1));
    assert_eq!(compare(&vec![vec![report(u64::MAX)]], &vec![0], u64::MAX), Ok(()));
}

#[test]
fn unknown_variables_are_warned_of_when_relaxed() {
    let doc = object(vec![
        ("base", text("http://x")),
        (
            "plan",
            Value::Array(vec![
                object(vec![("name", text("set")), ("assign", object(vec![("key", text("k")), ("value", text("{{ a }}-{{ iteration }}-{{ b.c }}"))]))]),
                object(vec![("name", text("wait")), ("delay", object(vec![("seconds", Value::Integer(1))]))]),
                object(vec![
                    ("name", text("call {{ k }} {{ n1 }}")),
                    ("request", object(vec![("url", text("/{{ item }}{{ u }}")), ("method", text("POST")), ("body", text("{{ b1 }}{{ b2 }}")), ("headers", object(vec![("H", text("{{ h }}")), ("I", text("{{ index }}"))]))])),
                    ("with_items", Value::Array(vec![text("i")])),
                ]),
            ]),
        ),
    ]);
    let mut config = config_of(&doc);
    let plan = plan_of(doc);
    let env = Environment::new();
    let mut pool = Pool::new();
    let mut strict = Iteration::new(0, &config.base);
    assert_eq!(strict.step(&plan, &env, &mut pool, &config).unwrap_err().detail, "a");
    assert!(strict.warnings.is_empty());
    config.relaxed_interpolations = true;
    let mut iteration = Iteration::new(0, &config.base);
    assert_eq!(iteration.step(&plan, &env, &mut pool, &config), Ok(Effect::Continue));
    assert_eq!(iteration.warnings, vec!["a", "b.c"]);
    assert_eq!(iteration.context.get("k"), Some(&text("-0-")));
    assert_eq!(iteration.step(&plan, &env, &mut pool, &config), Ok(Effect::Sleep { seconds: 1 }));
    assert!(iteration.warnings.is_empty());
    iteration.resume(&plan, &config, &Event::Slept { elapsed: 1 }).unwrap();
    match iteration.step(&plan, &env, &mut pool, &config).unwrap() {
        Effect::Send(outgoing) => {
            assert_eq!(outgoing.name, "call -0- ");
            assert_eq!(outgoing.url, "http://x/i");
        }
        other => panic!("Expected a call, got {:?}", other),
    }
    assert_eq!(iteration.warnings, vec!["n1", "u", "b1", "b2", "h"]);
    iteration.resume(&plan, &config, &Event::Answered { response: None, elapsed: 1 }).unwrap();
    assert_eq!(iteration.warnings, vec!["n1", "u", "b1", "b2", "h"]);
}

#[test]
fn compile_expands_each_item_of_one_entry() {
    let doc = object(vec![(
        "plan",
        Value::Array(vec![
            object(vec![("name", text("before")), ("request", object(vec![("url", text("/"))]))]),
            object(vec![("name", text("each {{ item }}")), ("request", object(vec![("url", text("/{{ index }}"))])), ("with_items", Value::Array(vec![Value::Integer(1), Value::Integer(2), Value::Integer(3)]))]),
            object(vec![("name", text("after")), ("request", object(vec![("url", text("/"))]))]),
        ]),
    )]);
    let plan = plan_of(doc);
    assert_eq!(plan.len(), 5);
    let expanded: Vec<(Option<Value>, Option<u32>)> = plan[1..4]
        .iter()
        .map(|step| match step {
            Step::Request(q) => (q.with_item.clone(), q.index),
            other => panic!("Expected a request, got {:?}", other),
        })
        .collect();
    assert_eq!(expanded, vec![(Some(Value::Integer(1)), Some(0)), (Some(Value::Integer(2)), Some(1)), (Some(Value::Integer(3)), Some(2))]);
    let picked = |pick: i64| {
        let mut files = Files::new();
        let entry = object(vec![("name", text("n")), ("request", object(vec![("url", text("/"))])), ("pick", Value::Integer(pick)), ("with_items", Value::Array(vec![Value::Integer(1), Value::Integer(2), Value::Integer(3)]))]);
        files.documents.push(("plan.yml".to_string(), vec![object(vec![("plan", Value::Array(vec![entry]))])]));
        compile("plan.yml", &Tags::new(None, None).unwrap(), &files)
    };
    assert_eq!(picked(2).unwrap().len(), 2);
    assert_eq!(picked(4).unwrap_err().kind, ErrorKind::PickTooLarge);
    assert_eq!(picked(-1).unwrap_err().kind, ErrorKind::NegativePick);
}
