use procss::transformers::{url_references, Asset};
use procss::utils::{file_prefix, join, join_paths, MinVec};
use procss::{BuildCss, BuildError};

#[test]
fn test_simple_build() {
    let mut outputs = vec![];
    let mut infiles = vec![];
    let mut outfiles = vec![];

    let mut build = BuildCss::new("./src");
    build.add("app/component.scss");
    for (path, text) in build.files().clone() {
        assert_eq!(text, None);
        infiles.push(build.source_path(&path));
        build.add_content(&path, "div{.open{color:green}}".to_owned());
    }

    for (outfile, css) in build.compile().unwrap().output_files("./dist") {
        outfiles.push(outfile);
        outputs.push(css);
    }

    assert_eq!(outputs, vec!["div .open{color:green;}".to_owned()]);
    assert_eq!(infiles, vec!["./src/app/component.scss".to_owned()]);
    assert_eq!(outfiles, vec!["./dist/app/component.css".to_owned()])
}

#[test]
fn build_resolves_imports_between_its_files() {
    let mut build = BuildCss::new("./src");
    build.add_content(
        "controls/menu.scss",
        "@mixin round{border-radius:2px}@gap: 4px;menu{@include round;}".to_owned(),
    );
    build.add_content(
        "app.scss",
        "@import \"controls/menu.scss\";menu{margin:@gap}".to_owned(),
    );
    let compiled = build.compile().unwrap();
    assert_eq!(
        compiled.as_strings(),
        vec![
            ("menu.css".to_owned(), "menu{border-radius:2px;}".to_owned()),
            (
                "app.css".to_owned(),
                "menu{border-radius:2px;margin:4px;}".to_owned()
            ),
        ]
    );
    assert_eq!(
        compiled.iter_files()[1],
        (
            "app.css".to_owned(),
            "menu{border-radius:2px;margin:4px;}".to_owned(),
            "app.scss".to_owned()
        )
    );
}

#[test]
fn build_fails_on_the_first_bad_file() {
    let mut build = BuildCss::new("");
    build.add_content("a.scss", "a{b:c}".to_owned());
    build.add("b.scss");
    build.add_content("c.scss", "c{".to_owned());
    assert_eq!(
        build.compile().unwrap_err(),
        BuildError::Missing("b.scss".to_owned())
    );
    build.add_content("b.scss", "b{c:d} }".to_owned());
    match build.compile().unwrap_err() {
        BuildError::Parse(path, error) => {
            assert_eq!(path, "b.scss");
            assert_eq!(error.kind, procss::parser::ErrorKind::Unconsumed);
            assert_eq!(error.detail.unwrap().offset, 7);
        }
        other => panic!("{:?}", other),
    }
}

#[test]
fn adding_a_file_twice_keeps_its_place() {
    let mut build = BuildCss::new("root");
    build.add("a");
    build.add_content("b", "b{x:1}".to_owned());
    build.add("a");
    build.add("b");
    build.add_content("a", "a{x:1}".to_owned());
    build.add_content("a", "a{x:2}".to_owned());
    assert_eq!(
        build.files(),
        &vec![
            ("a".to_owned(), Some("a{x:2}".to_owned())),
            ("b".to_owned(), Some("b{x:1}".to_owned())),
        ]
    );
    assert_eq!(build.rootdir(), "root");
}

#[test]
fn paths_are_joined_with_a_slash() {
    assert_eq!(join("a", "b"), "a/b");
    assert_eq!(join("a/", "b"), "a/b");
    assert_eq!(join("", "b"), "b");
    assert_eq!(join("a", ""), "a");
    assert_eq!(join_paths("./dist", "app/x/component.scss"), "./dist/app/x");
    assert_eq!(join_paths("./dist", "component.scss"), "./dist");
    assert_eq!(join_paths("", "/component.scss"), "");
    assert_eq!(join("a", "/b"), "/b");
}

#[test]
fn file_prefix_ends_at_the_first_dot() {
    assert_eq!(file_prefix("a/b.tar.gz").as_deref(), Some("b"));
    assert_eq!(file_prefix("b").as_deref(), Some("b"));
    assert_eq!(file_prefix("a/.hidden.x").as_deref(), Some(".hidden"));
    assert_eq!(file_prefix("a/.hidden").as_deref(), Some(".hidden"));
    assert_eq!(file_prefix("a/"), None);
    assert_eq!(file_prefix(""), None);
    assert_eq!(file_prefix("a/.."), None);
    assert_eq!(file_prefix("."), None);
    assert_eq!(file_prefix("..."), Some(".".to_owned()));
}

#[test]
fn files_without_a_name_give_no_output() {
    let mut build = BuildCss::new("");
    build.add_content("dir/", "a{b:c}".to_owned());
    build.add_content("dir/x.scss", "a{b:c}".to_owned());
    let compiled = build.compile().unwrap();
    assert_eq!(compiled.0.len(), 2);
    assert_eq!(
        compiled.output_files("out"),
        vec![("out/dir/x.css".to_owned(), "a{b:c;}".to_owned())]
    );
}

#[test]
fn compiled_files_can_be_inlined() {
    let mut build = BuildCss::new("./src");
    build.add_content("x.scss", "a{b:url(i.png);c:url(\"j.gif\")}".to_owned());
    build.add_content("app/y.scss", "a{b:url(i.png);c:url(/k.gif)}".to_owned());
    let mut compiled = build.compile().unwrap();
    assert_eq!(url_references(&compiled.0[0].1), vec!["i.png", "j.gif"]);
    assert_eq!(
        compiled.asset_paths(build.rootdir()),
        vec!["./src/i.png", "./src/j.gif", "./src/app/i.png", "/k.gif"]
    );
    let assets = vec![
        Asset {
            path: "./src/app/i.png".to_owned(),
            contents: vec![0, 255],
        },
        Asset {
            path: "./src/j.gif".to_owned(),
            contents: vec![],
        },
    ];
    compiled.inline_url(build.rootdir(), &assets);
    assert_eq!(
        compiled.as_strings(),
        vec![
            (
                "x.css".to_owned(),
                "a{b:url(i.png);c:url(\"data:image/svg+xml;base64,\");}".to_owned()
            ),
            (
                "y.css".to_owned(),
                "a{b:url(\"data:image/svg+xml;base64,AP8=\");c:url(/k.gif);}".to_owned()
            ),
        ]
    );
}

#[test]
fn min_vec_holds_its_head_and_tail() {
    let v = MinVec::new([1, 2], vec![3, 4, 5]);
    assert_eq!(v.iter(), vec![&1, &2, &3, &4, &5]);
    let w: MinVec<u8, 1> = MinVec::new([9], vec![]);
    assert_eq!(w.iter(), vec![&9]);
}

#[test]
fn min_vec_sets_an_element_by_its_index() {
    let mut v = MinVec::new([1, 2], vec![3, 4]);
    assert_eq!(v.set(1, 20), Ok(()));
    assert_eq!(v.set(2, 30), Ok(()));
    assert_eq!(v.set(4, 50), Err(50));
    assert_eq!(v.iter(), vec![&1, &20, &30, &4]);
    let mut w: MinVec<u8, 0> = MinVec::new([], vec![]);
    assert_eq!(w.set(0, 1), Err(1));
}

#[test]
fn outputs_of_one_name_are_held_once() {
    let mut build = BuildCss::new("");
    build.add_content("a/x.scss", "a{b:c}".to_owned());
    build.add_content("y.scss", "y{b:c}".to_owned());
    build.add_content("b/x.less", "b{b:c}".to_owned());
    let compiled = build.compile().unwrap();
    assert_eq!(compiled.iter_files().len(), 3);
    assert_eq!(
        compiled.as_strings(),
        vec![
            ("x.css".to_owned(), "b{b:c;}".to_owned()),
            ("y.css".to_owned(), "y{b:c;}".to_owned()),
        ]
    );
    assert_eq!(
        compiled.output_files("out"),
        vec![
            ("out/a/x.css".to_owned(), "a{b:c;}".to_owned()),
            ("out/y.css".to_owned(), "y{b:c;}".to_owned()),
            ("out/b/x.css".to_owned(), "b{b:c;}".to_owned()),
        ]
    );
}

#[test]
fn empty_file_compiles_to_an_empty_stylesheet() {
    let mut build = BuildCss::new("");
    build.add_content("a.scss", " /* nothing yet */ ".to_owned());
    build.add_content("b.scss", "@import \"a.scss\";b{c:d}".to_owned());
    assert_eq!(
        build.compile().unwrap().as_strings(),
        vec![
            ("a.css".to_owned(), String::new()),
            ("b.css".to_owned(), "b{c:d;}".to_owned()),
        ]
    );
}
