use nano9::cart::{finish_p8_lua, include_text, lua_include_paths, patch_png_lua};

#[test]
fn plain_lua_stays() {
    let lua = "print(1)\n".to_string();
    assert_eq!(finish_p8_lua(lua.clone(), &vec![], &vec![]), lua);
    assert_eq!(patch_png_lua("print(1)\n"), Some(None));
}

#[test]
fn dialect_is_rewritten() {
    let out = finish_p8_lua("if a != b then print(a) end\n".to_string(), &vec![], &vec![]);
    assert!(out.contains("a ~= b"));
    match patch_png_lua("if a != b then print(a) end\n") {
        Some(Some(code)) => assert!(code.contains("a ~= b")),
        _ => panic!("expected rewritten code"),
    }
}

#[test]
fn includes_are_resolved() {
    let lua = "#include lib.lua\nprint(x)\n";
    let paths = lua_include_paths(lua);
    assert_eq!(paths, vec!["lib.lua".to_string()]);
    assert_eq!(patch_png_lua(lua), None);
    let texts = vec!["x = 2".to_string()];
    let out = finish_p8_lua(lua.to_string(), &paths, &texts);
    assert!(out.contains("x = 2"));
    assert!(!out.contains("#include"));
    assert_eq!(include_text(&paths, &texts, "lib.lua"), "x = 2");
    assert_eq!(include_text(&paths, &texts, "other.lua"), "");
}
