use shipit::nixos::{inject_shipit_import, NixosError};

#[test]
fn injects_when_imports_bracket_is_on_next_line() {
    let input = r#"{
  imports =
    [
      ./hardware-configuration.nix
    ];
}
"#;

    let out = inject_shipit_import(input).expect("should inject import");
    assert!(out.contains("./shipit.nix"));
    assert!(out.contains("[\n      ./shipit.nix\n      ./hardware-configuration.nix"));
}

#[test]
fn injects_when_imports_bracket_is_on_same_line() {
    let input = r#"{
  imports = [
    ./hardware-configuration.nix
  ];
}
"#;

    let out = inject_shipit_import(input).expect("should inject import");
    assert!(out.contains("imports = [\n      ./shipit.nix"));
}

#[test]
fn inject_keeps_every_line_and_ends_with_newline() {
    let input = "{\n  imports = [ ./a.nix ];\n}";
    let out = inject_shipit_import(input).unwrap();
    assert_eq!(out, "{\n  imports = [ ./a.nix ];\n      ./shipit.nix\n}\n");
}

#[test]
fn inject_fails_without_imports() {
    let r = inject_shipit_import("{\n  services.foo = true;\n}\n");
    assert_eq!(r, Err(NixosError::NoImportsSection));
}

#[test]
fn inject_fails_without_bracket() {
    let r = inject_shipit_import("{\n  imports = ./a.nix;\n}\n");
    assert_eq!(r, Err(NixosError::NoImportsBracket));
}
