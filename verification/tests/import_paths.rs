use fuzzming::import_paths::{extract_dependency_imports, resolve_relative_path, to_import_path};

#[test]
fn import_path_starts_at_first_known_root() {
    assert_eq!(to_import_path("/home/u/proj/src/Vault.sol"), "src/Vault.sol");
    assert_eq!(to_import_path("lib/x/contracts/A.sol"), "contracts/A.sol");
    assert_eq!(to_import_path("repo/test/src/B.sol"), "src/B.sol");
    assert_eq!(to_import_path("repo/test/B.sol"), "test/B.sol");
    assert_eq!(to_import_path("Other.sol"), "Other.sol");
}

#[test]
fn relative_paths_are_resolved_against_the_directory() {
    assert_eq!(resolve_relative_path("src/vault", "./Token.sol"), "src/vault/Token.sol");
    assert_eq!(resolve_relative_path("src/vault", "../lib/Math.sol"), "src/lib/Math.sol");
    assert_eq!(resolve_relative_path("src/a/b", "../../c/./D.sol"), "src/c/D.sol");
    assert_eq!(resolve_relative_path("src", "../../X.sol"), "X.sol");
}

#[test]
fn dependency_imports_are_rewritten_to_project_paths() {
    let source = "pragma solidity ^0.8.0;\n\
                  import {Token} from \"./Token.sol\";\n\
                  import \"../lib/Math.sol\";\n\
                  import {Ownable} from \"@oz/Ownable.sol\";\n\
                  import \"forge-std/Test.sol\";\n\
                  contract Vault {}";
    let imports = extract_dependency_imports("project/src/vault/Vault.sol", source);
    assert_eq!(
        imports,
        vec![
            "import {Token} from \"src/vault/Token.sol\";".to_string(),
            "import \"src/lib/Math.sol\";".to_string(),
        ]
    );
}

#[test]
fn dependency_imports_without_directory() {
    let source = "  import {A} from \"./a/A.sol\";  \nimport \"./B.sol\";";
    let imports = extract_dependency_imports("Vault.sol", source);
    assert_eq!(
        imports,
        vec!["import {A} from \"a/A.sol\";".to_string(), "import \"B.sol\";".to_string()]
    );
    assert!(extract_dependency_imports("src/V.sol", "contract V {}").is_empty());
}

#[test]
fn import_path_of_import_path_is_unchanged() {
    for p in ["/a/src/contracts/X.sol", "/a/test/src/Y.sol", "lib/test/Z.sol", "plain.sol"] {
        let once = to_import_path(p);
        assert_eq!(to_import_path(&once), once);
    }
}
