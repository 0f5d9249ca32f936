use glycerin::js_engine::{JsEngine, JsValue};

#[test]
fn test_javascript_engine() {
    let mut engine = JsEngine::new().unwrap();
    engine.init().unwrap();

    // Test arithmetic
    let result = engine.evaluate_value("2 + 2");
    assert!(matches!(result, JsValue::Int(4)));

    // Test strings
    match engine.evaluate_value("'Hello' + ' World'") {
        JsValue::Text(s) => assert_eq!(s, "Hello World"),
        _ => panic!("expected a string"),
    }

    // Test arrays
    match engine.evaluate_value("[1, 2, 3].map(x => x * 2)") {
        JsValue::IntList(v) => assert_eq!(v, vec![2, 4, 6]),
        _ => panic!("expected a list"),
    }

    // Test console
    engine.execute("console.log('Test log')").unwrap();
    let logs = engine.get_console_logs();
    assert_eq!(logs.len(), 1);
}

#[test]
fn test_dom_bindings() {
    let mut engine = JsEngine::new().unwrap();
    engine.init().unwrap();

    // Test document title
    engine.execute("document.title = 'My Test Page'").unwrap();
    assert_eq!(engine.get_document_title(), "My Test Page");

    // Test element creation
    match engine.evaluate_value("document.createElement('div')") {
        JsValue::Text(element) => assert!(element.starts_with("elem_")),
        _ => panic!("expected a string"),
    }

    // Test query selector
    match engine.evaluate_value("document.querySelector('.test')") {
        JsValue::Text(result) => assert!(!result.is_empty()),
        _ => panic!("expected a string"),
    }
}

#[test]
fn test_timer_api() {
    let mut engine = JsEngine::new().unwrap();
    engine.init().unwrap();

    // Create timers
    let timer1 = match engine.evaluate_value("setTimeout(() => {}, 100)") {
        JsValue::Int(n) => n as u32,
        _ => panic!("expected a number"),
    };
    let timer2 = match engine.evaluate_value("setInterval(() => {}, 200)") {
        JsValue::Int(n) => n as u32,
        _ => panic!("expected a number"),
    };

    assert!(timer1 > 0);
    assert!(timer2 > 0);
    assert_ne!(timer1, timer2);

    let active = engine.get_active_timers();
    assert!(active.contains(&timer1));
    assert!(active.contains(&timer2));

    // Clear timers
    engine.execute("clearTimeout($timer1)").unwrap();
    engine.execute("clearInterval($timer2)").unwrap();

    let active = engine.get_active_timers();
    assert!(!active.contains(&timer1));
    assert!(!active.contains(&timer2));
}

#[test]
fn test_complex_javascript() {
    let mut engine = JsEngine::new().unwrap();
    engine.init().unwrap();

    // Test object manipulation
    let code = r#"
        var obj = {
            name: "Test",
            value: 42,
            nested: {
                deep: "value"
            },
            items: [1, 2, 3]
        };

        obj.value += 8;
        obj.items.push(4);

        JSON.stringify(obj)
    "#;

    let result = match engine.evaluate_value(code) {
        JsValue::Text(s) => s,
        _ => panic!("expected a string"),
    };
    assert!(result.contains("\"name\":\"Test\""));
    assert!(result.contains("\"value\":50"));
    assert!(result.contains("\"items\":[1,2,3,4]"));

    // Test functions
    let func_code = r#"
        function factorial(n) {
            if (n <= 1) return 1;
            return n * factorial(n - 1);
        }
        factorial(5)
    "#;

    let result = engine.evaluate_value(func_code);
    assert!(matches!(result, JsValue::Int(120)));
}
