use worker_pool::gui::{Button, Draw, Screen};
use worker_pool::http::{response, route};
use worker_pool::my_box::MyBox;
use worker_pool::rectangle::{area, Rectangle};
use worker_pool::restaurant::eat_at_restaurant;
use worker_pool::restaurant::hosting::add_to_waitlist;
use worker_pool::text::to_decimal;

#[test]
fn lib_it_works() {
    let result: i32 = 2 + 2;
    assert_eq!(result, 4);
}

#[test]
fn button_draws_its_debug_text() {
    let button = Button { width: 50, height: 10, label: String::from("OK") };
    assert_eq!(button.draw(), "Button { width: 50, height: 10, label: \"OK\" }");
}

#[test]
fn button_draws_what_debug_formatting_writes() {
    for (width, height, label) in [
        (0u32, 0u32, ""),
        (7, 4294967295, "plain"),
        (4294967295, 10, "tab\there"),
        (12, 34, "line\nbreak \\ 'q' \"dq\""),
        (1, 1, "gr\u{fc}n \u{1f600}"),
    ] {
        let button = Button { width, height, label: String::from(label) };
        assert_eq!(button.draw(), format!("{:?}", button));
    }
}

#[test]
fn screen_draws_every_component_in_order() {
    let screen = Screen {
        components: vec![
            Box::new(Button { width: 50, height: 10, label: String::from("OK") }),
            Box::new(Button { width: 1, height: 2, label: String::from("go") }),
            Box::new(Button { width: 0, height: 0, label: String::from("a \"b\"") }),
        ],
    };
    assert_eq!(
        screen.run(),
        vec![
            "Button { width: 50, height: 10, label: \"OK\" }",
            "Button { width: 1, height: 2, label: \"go\" }",
            "Button { width: 0, height: 0, label: \"a \\\"b\\\"\" }",
        ]
    );
    let empty = Screen { components: Vec::new() };
    assert!(empty.run().is_empty());
}

#[test]
fn area_is_width_times_height() {
    assert_eq!(area(&Rectangle { width: 60, height: 50 }), 3000);
    assert_eq!(area(&Rectangle { width: 0, height: 7 }), 0);
    assert_eq!(area(&Rectangle { width: 65535, height: 65537 }), 4294967295);
}

#[test]
fn my_box_gives_back_what_it_holds() {
    let x: i32 = 5;
    let y = MyBox::new(x);
    assert_eq!(5, x);
    assert_eq!(5, *y);
    let m = MyBox::new(String::from("Rust"));
    assert_eq!(m.len(), 4);
    assert_eq!(&*m, "Rust");
}

#[test]
fn guests_are_put_on_the_waitlist() {
    eat_at_restaurant();
    add_to_waitlist();
}

#[test]
fn requests_are_routed() {
    let front = route("GET / HTTP/1.1");
    assert_eq!(front.status_line, "HTTP/1.1 200 OK");
    assert_eq!(front.filename, "hello.html");
    assert_eq!(front.delay_secs, 0);
    let slow = route("GET /sleep HTTP/1.1");
    assert_eq!(slow.status_line, "HTTP/1.1 200 OK");
    assert_eq!(slow.filename, "hello.html");
    assert_eq!(slow.delay_secs, 5);
    for other in ["GET /missing HTTP/1.1", "", "POST / HTTP/1.1", "GET / HTTP/1.0", "get / http/1.1"] {
        let lost = route(other);
        assert_eq!(lost.status_line, "HTTP/1.1 404 NOT FOUND");
        assert_eq!(lost.filename, "404.html");
        assert_eq!(lost.delay_secs, 0);
    }
}

#[test]
fn numbers_are_written_in_decimal() {
    assert_eq!(to_decimal(0), "0");
    assert_eq!(to_decimal(7), "7");
    assert_eq!(to_decimal(10), "10");
    assert_eq!(to_decimal(1234567890), "1234567890");
    assert_eq!(to_decimal(usize::MAX), usize::MAX.to_string());
}

#[test]
fn response_carries_the_length_in_bytes() {
    assert_eq!(
        response("HTTP/1.1 200 OK", "<h1>Hi</h1>"),
        "HTTP/1.1 200 OK\r\nContent-Length: 11\r\n\r\n<h1>Hi</h1>"
    );
    assert_eq!(
        response("HTTP/1.1 404 NOT FOUND", ""),
        "HTTP/1.1 404 NOT FOUND\r\nContent-Length: 0\r\n\r\n"
    );
    assert_eq!(
        response("HTTP/1.1 200 OK", "gr\u{fc}n"),
        "HTTP/1.1 200 OK\r\nContent-Length: 5\r\n\r\ngr\u{fc}n"
    );
}
