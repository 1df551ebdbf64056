//! Paths, colors, layout strings and the small helpers.

use procstat::screen::{key_ctrl, string_to_color};
use procstat::util::{error, get_abspath, get_basename, join_path};
use procstat::{default_layout, get_version_string, parse_layout, split_interval, Error};

#[test]
fn test_get_abspath() {
    #[derive(Debug)]
    struct F {
        i: &'static str,
        o: &'static str,
    }
    let path_list = [
        F { i: "/", o: "/" },
        F { i: "/////", o: "/" },
        F { i: "/..", o: "/" },
        F { i: "/../", o: "/" },
        F {
            i: "/root",
            o: "/root",
        },
        F {
            i: "/root/",
            o: "/root",
        },
        F {
            i: "/root/..",
            o: "/",
        },
        F {
            i: "/root/../dev",
            o: "/dev",
        },
        F {
            i: "/does/not/exist",
            o: "/does/not/exist",
        },
        F {
            i: "/does/not/./exist",
            o: "/does/not/exist",
        },
        F {
            i: "/does/not/../NOT/exist",
            o: "/does/NOT/exist",
        },
    ];
    for x in &path_list {
        assert_eq!(get_abspath(x.i, "/"), x.o, "{x:?}");
    }
}

#[test]
fn test_get_abspath_relative() {
    assert_eq!(get_abspath("logs/app.log", "/srv"), "/srv/logs/app.log");
    assert_eq!(get_abspath("../peer", "/srv/web"), "/srv/peer");
    assert_eq!(get_abspath(".", "/srv"), "/srv");
}

#[test]
fn test_get_basename() {
    assert_eq!(get_basename("/var/log/messages", "/"), Ok("messages".to_string()));
    assert_eq!(get_basename("/var/log/", "/"), Ok("log".to_string()));
    assert_eq!(get_basename("tail", "/usr/bin"), Ok("tail".to_string()));
    assert_eq!(get_basename("/", "/"), Err(Error::NotFound));
    assert_eq!(get_basename("/..", "/"), Err(Error::NotFound));
}

#[test]
fn test_join_path() {
    assert_eq!(join_path("/var", "log"), "/var/log");
    assert_eq!(join_path("/var/", "log"), "/var/log");
    assert_eq!(join_path("/var", "/etc"), "/etc");
    assert_eq!(join_path("", "log"), "log");
    assert_eq!(join_path("/var", ""), "/var/");
}

#[test]
fn test_error_is_other() {
    assert_eq!(error(), Error::Other);
}

#[test]
fn test_string_to_color() {
    assert_eq!(string_to_color("black"), 0);
    assert_eq!(string_to_color("red"), 1);
    assert_eq!(string_to_color("green"), 2);
    assert_eq!(string_to_color("yellow"), 3);
    assert_eq!(string_to_color("blue"), 4);
    assert_eq!(string_to_color("magenta"), 5);
    assert_eq!(string_to_color("cyan"), 6);
    assert_eq!(string_to_color("white"), 7);
    assert_eq!(string_to_color("mauve"), -1);
    assert_eq!(string_to_color(""), -1);
}

#[test]
fn test_key_ctrl() {
    assert_eq!(key_ctrl('l' as u32), 0x0c);
    assert_eq!(key_ctrl('B' as u32), 0x02);
    assert_eq!(key_ctrl('D' as u32), 0x04);
}

#[test]
fn test_parse_layout() {
    assert_eq!(parse_layout("12"), vec![1, 2]);
    assert_eq!(parse_layout("9a"), vec![9, 10]);
    assert_eq!(parse_layout("F"), vec![15]);
    assert_eq!(parse_layout("0z!"), vec![0, 0, 0]);
    assert_eq!(parse_layout(""), Vec::<usize>::new());
}

#[test]
fn test_default_layout() {
    assert_eq!(default_layout(3), vec![1, 1, 1]);
    assert_eq!(default_layout(0), Vec::<usize>::new());
}

#[test]
fn test_split_interval() {
    assert_eq!(split_interval(500), (0, 500));
    assert_eq!(split_interval(2500), (2, 500));
    assert_eq!(split_interval(1000), (1, 0));
}

#[test]
fn test_version_string() {
    assert_eq!(get_version_string(), "0.1.7");
}
