use vstd::prelude::*;
use vstd::string::*;

use crate::scope::ScopeError;
use convert_case::Casing;

verus! {

/// Why scaffolding an end-user hApp stopped.
#[derive(Debug)]
pub enum ScaffoldEndUserHappError {
    /// The scopes of the flake could not be delimited.
    RenderError(ScopeError),
    /// The bundle identifier given is not acceptable.
    InvalidIdentifierError(String),
    /// A `package.json` file could not be read.
    MalformedJsonError(String, String),
}

/// Number of occurrences of `c` in `s`.
pub open spec fn count_char(s: Seq<char>, c: char) -> nat
    decreases s.len(),
{
    if s.len() == 0 {
        0
    } else {
        count_char(s.drop_last(), c) + if s.last() == c {
            1nat
        } else {
            0nat
        }
    }
}

/// A bundle identifier is accepted when it holds no `-` nor `_` and splits into exactly
/// three segments at its points.
pub open spec fn identifier_is_valid(identifier: Seq<char>) -> bool {
    &&& !identifier.contains('-')
    &&& !identifier.contains('_')
    &&& count_char(identifier, '.') + 1 == 3
}

pub open spec fn alphanumerical_identifier_message() -> Seq<char> {
    "The bundle identifier can only contain alphanumerical characters."@
}

pub open spec fn three_segments_identifier_message() -> Seq<char> {
    "The bundle identifier must contain three segments split by points (eg. 'org.myorg.myapp')."@
}

/// Checks that `identifier` can be used as the bundle identifier of the Tauri app.
pub fn validate_identifier(identifier: &String) -> (r: Result<(), ScaffoldEndUserHappError>)
    ensures
        identifier@.contains('-') || identifier@.contains('_') ==> (r matches Err(
            ScaffoldEndUserHappError::InvalidIdentifierError(m),
        ) && m@ == alphanumerical_identifier_message()),
        !identifier@.contains('-') && !identifier@.contains('_') && count_char(identifier@, '.')
            + 1 != 3 ==> (r matches Err(ScaffoldEndUserHappError::InvalidIdentifierError(m))
            && m@ == three_segments_identifier_message()),
        identifier_is_valid(identifier@) <==> r is Ok,
{
    let s = identifier.as_str();
    let n = s.unicode_len();
    let mut i: usize = 0;
    let mut has_forbidden = false;
    let mut dots: usize = 0;
    while i < n
        invariant
            n == identifier@.len(),
            s@ == identifier@,
            i <= n,
            dots <= i,
            dots == count_char(identifier@.take(i as int), '.'),
            has_forbidden <==> (identifier@.take(i as int).contains('-')
                || identifier@.take(i as int).contains('_')),
        decreases n - i,
    {
        let c = s.get_char(i);
        proof {
            let t = identifier@.take(i as int);
            let t1 = identifier@.take(i + 1);
            assert(t1.drop_last() =~= t);
            assert(t1.last() == c);
            assert(t1 =~= t.push(c));
            assert(t1.contains('-') <==> (t.contains('-') || c == '-')) by {
                if t1.contains('-') {
                    let k = choose|k: int| 0 <= k < t1.len() && t1[k] == '-';
                    if k < t.len() {
                        assert(t[k] == '-');
                    }
                }
                if t.contains('-') {
                    let k = choose|k: int| 0 <= k < t.len() && t[k] == '-';
                    assert(t1[k] == '-');
                }
                if c == '-' {
                    assert(t1[i as int] == '-');
                }
            }
            assert(t1.contains('_') <==> (t.contains('_') || c == '_')) by {
                if t1.contains('_') {
                    let k = choose|k: int| 0 <= k < t1.len() && t1[k] == '_';
                    if k < t.len() {
                        assert(t[k] == '_');
                    }
                }
                if t.contains('_') {
                    let k = choose|k: int| 0 <= k < t.len() && t[k] == '_';
                    assert(t1[k] == '_');
                }
                if c == '_' {
                    assert(t1[i as int] == '_');
                }
            }
        }
        if c == '-' || c == '_' {
            has_forbidden = true;
        }
        if c == '.' {
            dots = dots + 1;
        }
        i = i + 1;
    }
    assert(identifier@.take(n as int) =~= identifier@);
    if has_forbidden {
        Err(
            ScaffoldEndUserHappError::InvalidIdentifierError(
                String::from_str("The bundle identifier can only contain alphanumerical characters."),
            ),
        )
    } else if dots != 2 {
        Err(
            ScaffoldEndUserHappError::InvalidIdentifierError(
                String::from_str(
                    "The bundle identifier must contain three segments split by points (eg. 'org.myorg.myapp').",
                ),
            ),
        )
    } else {
        Ok(())
    }
}

/// What `convert_case` gives back for a string turned to flat case (all lowercase, no
/// delimiter).
pub uninterp spec fn flat_case(s: Seq<char>) -> Seq<char>;

/// `s.to_case(Case::Flat)` of the `convert_case` crate.
#[verifier::external_body]
fn to_flat_case(s: &str) -> (r: String)
    ensures
        r@ == flat_case(s@),
{
    s.to_case(convert_case::Case::Flat)
}

/// The question asked for the bundle identifier when none was given.
pub fn bundle_identifier_prompt(app_name: &String) -> (r: String)
    ensures
        r@ == "Input the bundle identifier for your app (eg: org.myorg."@ + flat_case(app_name@)
            + "): "@,
{
    let flat = to_flat_case(app_name.as_str());
    let mut r = String::from_str("Input the bundle identifier for your app (eg: org.myorg.");
    r.append(flat.as_str());
    r.append("): ");
    r
}

/// The commands that the project's package manager uses to run the scripts that the
/// scaffolded scripts call.
pub struct PackageManagerCommands {
    /// Runs `build:happ`.
    pub build_happ: String,
    /// Runs `start` in the UI package.
    pub ui_start: String,
    /// Runs `network`.
    pub network: String,
    /// Runs `launch`.
    pub launch: String,
    /// Runs `tauri dev`.
    pub tauri_dev: String,
    /// Runs `tauri android dev`.
    pub tauri_android_dev: String,
    /// Runs `tauri dev --no-watch`.
    pub tauri_dev_no_watch: String,
}

/// A script of a `package.json` file: its name and its command.
pub struct NpmScript {
    pub name: String,
    pub command: String,
}

/// A development dependency of a `package.json` file: its package and its version.
pub struct NpmDependency {
    pub package: String,
    pub version: String,
}

pub open spec fn script_view(s: NpmScript) -> (Seq<char>, Seq<char>) {
    (s.name@, s.command@)
}

/// The scripts that the root `package.json` gets, in the order in which they are added.
pub open spec fn tauri_scripts_spec(c: PackageManagerCommands, app_name: Seq<char>) -> Seq<
    (Seq<char>, Seq<char>),
> {
    seq![
        ("start"@, "AGENTS=2 "@ + c.network@),
        (
            "network"@,
            c.build_happ@ + " && concurrently -k \"UI_PORT=1420 "@ + c.ui_start@ + "\" \""@
                + c.launch@ + "\""@,
        ),
        (
            "network:android"@,
            c.build_happ@ + " && concurrently -k \"UI_PORT=1420 "@ + c.ui_start@ + "\" \""@
                + c.tauri_dev@ + "\" \""@ + c.tauri_android_dev@ + "\""@,
        ),
        (
            "build:zomes"@,
            "CARGO_TARGET_DIR=target cargo build --release --target wasm32-unknown-unknown --workspace --exclude "@
                + app_name + "-tauri"@,
        ),
        ("launch"@, "concurrently-repeat \""@ + c.tauri_dev_no_watch@ + "\" $AGENTS"@),
        ("tauri"@, "tauri"@),
    ]
}

fn concat_all(parts: &Vec<&str>) -> (r: String)
    ensures
        r@ == parts@.map_values(|p: &str| p@).fold_left(
            Seq::<char>::empty(),
            |acc: Seq<char>, x: Seq<char>| acc + x,
        ),
{
    let mut r = String::new();
    let mut i: usize = 0;
    while i < parts.len()
        invariant
            i <= parts@.len(),
            r@ == parts@.take(i as int).map_values(|p: &str| p@).fold_left(
                Seq::<char>::empty(),
                |acc: Seq<char>, x: Seq<char>| acc + x,
            ),
        decreases parts@.len() - i,
    {
        let ghost before = r@;
        r.append(parts[i]);
        proof {
            let f = |acc: Seq<char>, x: Seq<char>| acc + x;
            let m1 = parts@.take(i + 1).map_values(|p: &str| p@);
            let m0 = parts@.take(i as int).map_values(|p: &str| p@);
            assert(m1.drop_last() =~= m0);
            assert(m1.last() == parts@[i as int]@);
        }
        i = i + 1;
    }
    assert(parts@.take(parts@.len() as int) =~= parts@);
    r
}

/// The scripts that scaffolding adds to the root `package.json`, given the commands of the
/// project's package manager and the name of the app.
pub fn tauri_scripts(commands: &PackageManagerCommands, app_name: &String) -> (r: Vec<NpmScript>)
    ensures
        r@.map_values(|s: NpmScript| script_view(s)) == tauri_scripts_spec(*commands, app_name@),
{
    let mut r: Vec<NpmScript> = Vec::new();
    let start = concat_all(&vec!["AGENTS=2 ", commands.network.as_str()]);
    r.push(NpmScript { name: String::from_str("start"), command: start });
    let network = concat_all(
        &vec![
            commands.build_happ.as_str(),
            " && concurrently -k \"UI_PORT=1420 ",
            commands.ui_start.as_str(),
            "\" \"",
            commands.launch.as_str(),
            "\"",
        ],
    );
    r.push(NpmScript { name: String::from_str("network"), command: network });
    let android = concat_all(
        &vec![
            commands.build_happ.as_str(),
            " && concurrently -k \"UI_PORT=1420 ",
            commands.ui_start.as_str(),
            "\" \"",
            commands.tauri_dev.as_str(),
            "\" \"",
            commands.tauri_android_dev.as_str(),
            "\"",
        ],
    );
    r.push(NpmScript { name: String::from_str("network:android"), command: android });
    let zomes = concat_all(
        &vec![
            "CARGO_TARGET_DIR=target cargo build --release --target wasm32-unknown-unknown --workspace --exclude ",
            app_name.as_str(),
            "-tauri",
        ],
    );
    r.push(NpmScript { name: String::from_str("build:zomes"), command: zomes });
    let launch = concat_all(
        &vec!["concurrently-repeat \"", commands.tauri_dev_no_watch.as_str(), "\" $AGENTS"],
    );
    r.push(NpmScript { name: String::from_str("launch"), command: launch });
    r.push(NpmScript { name: String::from_str("tauri"), command: String::from_str("tauri") });
    proof {
        reveal_with_fuel(Seq::fold_left, 10);
    }
    assert(r@.map_values(|s: NpmScript| script_view(s)) =~= tauri_scripts_spec(
        *commands,
        app_name@,
    ));
    r
}

/// The development dependencies that scaffolding adds to the root `package.json`, in order.
pub open spec fn tauri_dev_dependencies_spec() -> Seq<(Seq<char>, Seq<char>)> {
    seq![
        ("@tauri-apps/cli"@, "^2.0.0-rc"@),
        ("concurrently"@, "^8.2.2"@),
        ("concurrently-repeat"@, "^0.0.1"@),
        ("internal-ip-cli"@, "^2.0.0"@),
        ("new-port-cli"@, "^1.0.0"@),
    ]
}

/// The development dependencies that scaffolding adds to the root `package.json`.
pub fn tauri_dev_dependencies() -> (r: Vec<NpmDependency>)
    ensures
        r@.map_values(|d: NpmDependency| (d.package@, d.version@))
            == tauri_dev_dependencies_spec(),
{
    let r = vec![
        NpmDependency {
            package: String::from_str("@tauri-apps/cli"),
            version: String::from_str("^2.0.0-rc"),
        },
        NpmDependency {
            package: String::from_str("concurrently"),
            version: String::from_str("^8.2.2"),
        },
        NpmDependency {
            package: String::from_str("concurrently-repeat"),
            version: String::from_str("^0.0.1"),
        },
        NpmDependency {
            package: String::from_str("internal-ip-cli"),
            version: String::from_str("^2.0.0"),
        },
        NpmDependency {
            package: String::from_str("new-port-cli"),
            version: String::from_str("^1.0.0"),
        },
    ];
    assert(r@.map_values(|d: NpmDependency| (d.package@, d.version@))
        =~= tauri_dev_dependencies_spec());
    r
}

/// The `start` script that scaffolding sets in the UI's `package.json`.
pub fn ui_start_script() -> (r: NpmScript)
    ensures
        r.name@ == "start"@,
        r.command@ == "vite --clearScreen false"@,
{
    NpmScript {
        name: String::from_str("start"),
        command: String::from_str("vite --clearScreen false"),
    }
}

} // verus!
