use eirc::plugin::is_plugin_file;

#[test]
fn text_file_is_not_a_plugin() {
    assert!(!is_plugin_file("plugin.txt", "so"));
    assert!(!is_plugin_file("plugin.txt", "dll"));
    assert!(!is_plugin_file("plugin.txt", "dylib"));
}

#[test]
fn native_libraries_are_plugins() {
    assert!(is_plugin_file("plugin.so", "so"));
    assert!(is_plugin_file("plugin.dll", "dll"));
    assert!(is_plugin_file("libgreeter.dylib", "dylib"));
    assert!(is_plugin_file("a.b.so", "so"));
    assert!(is_plugin_file("x.dll", "dll"));
    assert!(is_plugin_file("..so", "so"));
}

#[test]
fn libraries_of_another_platform_are_not_plugins() {
    assert!(!is_plugin_file("plugin.dll", "so"));
    assert!(!is_plugin_file("plugin.so", "dll"));
    assert!(!is_plugin_file("plugin.so", "dylib"));
}

#[test]
fn only_the_last_extension_counts() {
    assert!(!is_plugin_file("plugin.so.txt", "so"));
    assert!(!is_plugin_file("plugin.dll.bak", "dll"));
    assert!(!is_plugin_file("libc.so.6", "so"));
    assert!(is_plugin_file("plugin.txt.so", "so"));
}

#[test]
fn names_without_a_stem_or_a_dot_are_not_plugins() {
    assert!(!is_plugin_file("", "so"));
    assert!(!is_plugin_file("so", "so"));
    assert!(!is_plugin_file("dll", "dll"));
    assert!(!is_plugin_file(".so", "so"));
    assert!(!is_plugin_file(".dll", "dll"));
    assert!(!is_plugin_file("pluginso", "so"));
    assert!(!is_plugin_file("plugin.", "so"));
}

#[test]
fn extension_is_compared_exactly() {
    assert!(!is_plugin_file("plugin.SO", "so"));
    assert!(!is_plugin_file("plugin.Dll", "dll"));
    assert!(!is_plugin_file("plugin.soo", "so"));
    assert!(!is_plugin_file("plugin.s", "so"));
    assert!(!is_plugin_file("plugin.dl", "dll"));
    assert!(!is_plugin_file("plugin.so ", "so"));
    assert!(!is_plugin_file("plugin.sö", "so"));
}
