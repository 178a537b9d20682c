use p2p_shipyard::flake::{add_tauri_dev_shells, dev_shells_edit_is_defined, remove_rust_dev_package};
use p2p_shipyard::scaffold::{
    bundle_identifier_prompt, tauri_dev_dependencies, tauri_scripts, ui_start_script,
    validate_identifier, PackageManagerCommands, ScaffoldEndUserHappError,
};
use p2p_shipyard::scope::{get_scope_open_and_close_char_indexes, ScopeError};

fn default_flake_nix_with_shipyard_input() -> String {
    String::from(
        r#"{
  description = "Template for Holochain app development";
  
  inputs = {
    p2p-shipyard.url = "github:darksoil-studio/p2p-shipyard";
    holonix.url = "github:holochain/holonix/main-0.3";
    nixpkgs.follows = "holonix/nixpkgs";
    hc-infra.url = "github:holochain-open-dev/utils";
  };

  outputs = inputs @ { ... }:
    inputs.holonix.inputs.flake-parts.lib.mkFlake
    {
      inherit inputs;
      specialArgs = {
        rootPath = ./.;
      };
    }
    {

      systems = builtins.attrNames inputs.holonix.devShells;
      perSystem =
        { inputs'
        , config
        , pkgs
        , system
        , lib
        , self'
        , ...
        }: {
          devShells.default = pkgs.mkShell {
            inputsFrom = [ 
              inputs'.hc-infra.devShells.synchronized-pnpm
              inputs'.holonix.devShells.default
            ];
          };
        };
    };
}
"#,
    )
}

fn expected_flake_nix() -> &'static str {
    r#"{
  description = "Template for Holochain app development";
  
  inputs = {
    p2p-shipyard.url = "github:darksoil-studio/p2p-shipyard";
    holonix.url = "github:holochain/holonix/main-0.3";
    nixpkgs.follows = "holonix/nixpkgs";
    hc-infra.url = "github:holochain-open-dev/utils";
  };

  outputs = inputs @ { ... }:
    inputs.holonix.inputs.flake-parts.lib.mkFlake
    {
      inherit inputs;
      specialArgs = {
        rootPath = ./.;
      };
    }
    {

      systems = builtins.attrNames inputs.holonix.devShells;
      perSystem =
        { inputs'
        , config
        , pkgs
        , system
        , lib
        , self'
        , ...
        }: {
          devShells.default = pkgs.mkShell {
            inputsFrom = [
              inputs'.p2p-shipyard.devShells.holochainTauriDev 
              inputs'.hc-infra.devShells.synchronized-pnpm
              inputs'.holonix.devShells.default
            ];
          };
          devShells.androidDev = pkgs.mkShell {
            inputsFrom = [
              inputs'.p2p-shipyard.devShells.holochainTauriAndroidDev 
              inputs'.hc-infra.devShells.synchronized-pnpm
              inputs'.holonix.devShells.default
            ];
          };
        };
    };
}
"#
}

fn npm_commands(ui_package: &str) -> PackageManagerCommands {
    PackageManagerCommands {
        build_happ: String::from("npm run build:happ"),
        ui_start: format!("npm run -w {ui_package} start"),
        network: String::from("npm run network"),
        launch: String::from("npm run launch"),
        tauri_dev: String::from("npm run tauri dev"),
        tauri_android_dev: String::from("npm run tauri android dev"),
        tauri_dev_no_watch: String::from("npm run tauri dev --no-watch"),
    }
}

#[test]
fn simple_case_test() {
    // The flake and package.json edits of scaffolding a hApp named `myhapp` whose UI is the
    // npm package `package1`, with the `p2p-shipyard` input already added to the flake.
    let flake = remove_rust_dev_package(&default_flake_nix_with_shipyard_input());
    let flake = add_tauri_dev_shells(&flake).unwrap();
    assert_eq!(flake, expected_flake_nix());

    let scripts = tauri_scripts(&npm_commands("package1"), &String::from("myhapp"));
    let scripts: Vec<(String, String)> =
        scripts.into_iter().map(|s| (s.name, s.command)).collect();
    assert_eq!(
        scripts,
        vec![
            (String::from("start"), String::from("AGENTS=2 npm run network")),
            (
                String::from("network"),
                String::from(
                    "npm run build:happ && concurrently -k \"UI_PORT=1420 npm run -w package1 start\" \"npm run launch\""
                )
            ),
            (
                String::from("network:android"),
                String::from(
                    "npm run build:happ && concurrently -k \"UI_PORT=1420 npm run -w package1 start\" \"npm run tauri dev\" \"npm run tauri android dev\""
                )
            ),
            (
                String::from("build:zomes"),
                String::from(
                    "CARGO_TARGET_DIR=target cargo build --release --target wasm32-unknown-unknown --workspace --exclude myhapp-tauri"
                )
            ),
            (
                String::from("launch"),
                String::from("concurrently-repeat \"npm run tauri dev --no-watch\" $AGENTS")
            ),
            (String::from("tauri"), String::from("tauri")),
        ]
    );

    let deps: Vec<(String, String)> = tauri_dev_dependencies()
        .into_iter()
        .map(|d| (d.package, d.version))
        .collect();
    assert_eq!(
        deps,
        vec![
            (String::from("@tauri-apps/cli"), String::from("^2.0.0-rc")),
            (String::from("concurrently"), String::from("^8.2.2")),
            (String::from("concurrently-repeat"), String::from("^0.0.1")),
            (String::from("internal-ip-cli"), String::from("^2.0.0")),
            (String::from("new-port-cli"), String::from("^1.0.0")),
        ]
    );

    let ui_start = ui_start_script();
    assert_eq!(ui_start.name, "start");
    assert_eq!(ui_start.command, "vite --clearScreen false");
}

#[test]
fn rust_dev_package_line_is_removed() {
    let flake = String::from(
        "buildInputs = [\n            rust # For Rust development, with the WASM target included for zome builds\n];",
    );
    assert_eq!(remove_rust_dev_package(&flake), "buildInputs = [\n\n];");
}

#[test]
fn dev_shells_need_the_default_shell() {
    let flake = String::from("{ devShells.other = pkgs.mkShell { }; }");
    assert!(matches!(add_tauri_dev_shells(&flake), Err(ScopeError::OpenerNotFound)));
}

#[test]
fn dev_shells_need_a_closed_default_shell() {
    let flake = String::from("{\n  devShells.default = pkgs.mkShell {\n inputsFrom = [ ];\n");
    assert!(matches!(add_tauri_dev_shells(&flake), Err(ScopeError::MalformedScopes)));
}

#[test]
fn scope_indexes_of_nested_braces() {
    let text = String::from("a { b { c } d } e");
    let r = get_scope_open_and_close_char_indexes(&text, &String::from("a {"));
    assert_eq!(r, Ok((2, 14)));
}

#[test]
fn scope_indexes_count_the_opener_in_bytes() {
    // `é` takes two bytes: the opener's end is a byte offset, the closing brace a character
    // position.
    let text = String::from("é{ x }");
    let r = get_scope_open_and_close_char_indexes(&text, &String::from("{"));
    assert_eq!(r, Ok((2, 5)));
}

#[test]
fn scope_opener_missing() {
    let r = get_scope_open_and_close_char_indexes(&String::from("abc"), &String::from("{"));
    assert_eq!(r, Err(ScopeError::OpenerNotFound));
    assert_eq!(
        ScopeError::OpenerNotFound.message(),
        "Given scope opener not found in the given parameter"
    );
}

#[test]
fn scope_never_closed() {
    let r = get_scope_open_and_close_char_indexes(&String::from("x { { }"), &String::from("x {"));
    assert_eq!(r, Err(ScopeError::MalformedScopes));
    assert_eq!(ScopeError::MalformedScopes.message(), "Malformed scopes");
}

#[test]
fn identifier_with_three_segments_is_valid() {
    assert!(validate_identifier(&String::from("studio.darksoil.myapp")).is_ok());
}

#[test]
fn identifier_with_dash_is_refused() {
    match validate_identifier(&String::from("studio.dark-soil.myapp")) {
        Err(ScaffoldEndUserHappError::InvalidIdentifierError(m)) => assert_eq!(
            m,
            "The bundle identifier can only contain alphanumerical characters."
        ),
        _ => panic!("expected an invalid identifier"),
    }
    assert!(validate_identifier(&String::from("studio.dark_soil.myapp")).is_err());
}

#[test]
fn identifier_with_two_segments_is_refused() {
    match validate_identifier(&String::from("org.myapp")) {
        Err(ScaffoldEndUserHappError::InvalidIdentifierError(m)) => assert_eq!(
            m,
            "The bundle identifier must contain three segments split by points (eg. 'org.myorg.myapp')."
        ),
        _ => panic!("expected an invalid identifier"),
    }
    assert!(validate_identifier(&String::from("a.b.c.d")).is_err());
}

#[test]
fn bundle_identifier_prompt_uses_flat_case() {
    assert_eq!(
        bundle_identifier_prompt(&String::from("My Happ")),
        "Input the bundle identifier for your app (eg: org.myorg.myhapp): "
    );
}

#[test]
fn dev_shells_edit_is_defined_where_it_runs_through() {
    assert!(dev_shells_edit_is_defined(&default_flake_nix_with_shipyard_input()));
    assert!(dev_shells_edit_is_defined(&String::from("{ devShells.other = pkgs.mkShell { }; }")));
    assert!(!dev_shells_edit_is_defined(&String::from("devShells.default = pkgs.mkShell { };")));
    assert!(!dev_shells_edit_is_defined(&String::from(
        " devShells.default = pkgs.mkShell { };"
    )));
}
