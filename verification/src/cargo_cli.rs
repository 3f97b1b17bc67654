//! The shell script that builds Rust services with Cargo, and, on a
//! distributed cluster, the Docker images that carry each binary.

use vstd::prelude::*;

use crate::text::{decimal, digits_value, join_strings, joined_by, lemma_decimal_nonempty, lemma_decimal_reads_back, push_decimal, views};

verus! {

/// One Cargo project to build and the binaries to build in it.
pub struct BuildCall {
    pub path: String,
    pub bins: Vec<String>,
}

/// What to build and how.
pub struct BuildOpts {
    pub build_calls: Vec<BuildCall>,
    pub release: bool,
    /// How many threads to run in parallel when building.
    pub jobs: Option<usize>,
}

/// The kind of cluster the namespace runs on.
#[derive(Clone, Copy, Debug, PartialEq, Eq, Structural)]
pub enum ClusterKind {
    SingleNode,
    Distributed,
}

/// The Docker image to build for one binary.
pub struct DockerBuild {
    pub bin: String,
    /// The file name of its Dockerfile, `Dockerfile.{bin}`.
    pub dockerfile_name: String,
    pub dockerfile: String,
    /// `{repository}{bin}:{source_hash}`.
    pub image_tag: String,
}

/// What running a build consists of.
pub enum BuildPlan {
    /// Run `sh -c` with this script in the project directory.
    SingleNode { script: String },
    /// Write each Dockerfile, then `docker build` each image.
    Distributed { images: Vec<DockerBuild> },
}

/// Why a build cannot start.
#[derive(Debug, PartialEq, Eq, Structural)]
pub enum BuildError {
    /// The Docker repository does not end with a slash.
    RepositoryWithoutSlash,
}

/// `--jobs {jobs}`, or nothing.
pub open spec fn jobs_flag(jobs: Option<usize>) -> Seq<char> {
    match jobs {
        Some(j) => "--jobs "@ + decimal(j as nat),
        None => Seq::empty(),
    }
}

/// `--message-format={fmt}`, or nothing.
pub open spec fn format_flag(message_format: Option<Seq<char>>) -> Seq<char> {
    match message_format {
        Some(f) => "--message-format="@ + f,
        None => Seq::empty(),
    }
}

/// `--release`, or nothing.
pub open spec fn release_flag(release: bool) -> Seq<char> {
    if release { "--release"@ } else { Seq::empty() }
}

/// `--bin {bin}` for each binary, separated by spaces.
pub open spec fn bin_flags(bins: Seq<Seq<char>>) -> Seq<char> {
    joined_by(bins.map_values(|b: Seq<char>| "--bin "@ + b), " "@)
}

/// The script step that builds one project, run only while the steps
/// before it succeeded.
pub open spec fn call_script(path: Seq<char>, jobs: Seq<char>, format: Seq<char>, release: Seq<char>, bins: Seq<char>) -> Seq<char> {
    "if [ $? -eq 0 ]; then\n\t(cd "@ + path + " && cargo build "@ + jobs + " "@ + format + " "@ + release + " "@ + bins
        + " --target-dir $TARGET_DIR)\nfi\n"@
}

/// The script step of one build call under the given options.
pub open spec fn call_step(call: BuildCall, jobs: Option<usize>, message_format: Option<Seq<char>>, release: bool) -> Seq<char> {
    call_script(call.path@, jobs_flag(jobs), format_flag(message_format), release_flag(release), bin_flags(views(call.bins@)))
}

/// The first lines of the build script.
pub open spec fn script_header() -> Seq<char> {
    "TARGET_DIR=$(readlink -f ./target)\n# Used for Tokio Console. See https://github.com/tokio-rs/console#using-it\nexport RUSTFLAGS=\"--cfg tokio_unstable\"\n# Used for debugging\n# export CARGO_LOG=cargo::core::compiler::fingerprint=info\n\n"@
}

/// The build script: the header, the steps of all build calls separated by
/// newlines, and the line that records the exit code.
pub open spec fn build_script(opts: BuildOpts, message_format: Option<Seq<char>>) -> Seq<char> {
    script_header()
        + joined_by(opts.build_calls@.map_values(|c: BuildCall| call_step(c, opts.jobs, message_format, opts.release)), "\n"@)
        + "\n\nEXIT_CODE=$?\n"@
}

/// The build script followed by the line that exits with its code.
pub open spec fn exiting_script(opts: BuildOpts, message_format: Option<Seq<char>>) -> Seq<char> {
    build_script(opts, message_format) + "\n\n# Exit\nexit $EXIT_CODE\n"@
}

/// Names the Rust `Debug` rendering of a string (`format!("{:?}", s)`): the
/// string in double quotes with quotes, backslashes and control characters
/// escaped.
pub uninterp spec fn debug_quoted(s: Seq<char>) -> Seq<char>;

/// The `Debug` rendering of a string, through `format!("{:?}", ..)`.
#[verifier::external_body]
fn debug_quote(s: &str) -> (res: String)
    ensures
        res@ == debug_quoted(s@),
{
    format!("{:?}", s)
}

/// The Dockerfile that builds one binary by running the script, given in
/// its quoted form, and then runs the binary.
pub open spec fn dockerfile_quoted(quoted_script: Seq<char>, optimization: Seq<char>, bin: Seq<char>) -> Seq<char> {
    "FROM rust:1.72-slim as build\n\nRUN apt-get update\nRUN apt-get install -y protobuf-compiler pkg-config libssl-dev\n\nWORKDIR /usr/rivet\nCOPY . .\nRUN [\"sh\", \"-c\", "@
        + quoted_script
        + "]\n\nFROM debian:12.1-slim as run\n\nCOPY --from=build /usr/rivet/target/"@ + optimization + "/"@ + bin
        + " /bin/svc\nRUN apt-get update\nRUN apt-get -y install openssl\n\nCMD [\"bin/svc\"]\n"@
}

/// The Dockerfile that builds one binary with the script and runs it.
pub open spec fn dockerfile(script: Seq<char>, optimization: Seq<char>, bin: Seq<char>) -> Seq<char> {
    dockerfile_quoted(debug_quoted(script), optimization, bin)
}

/// The Cargo profile directory of a build.
pub open spec fn profile_dir(release: bool) -> Seq<char> {
    if release { "release"@ } else { "debug"@ }
}

/// Whether `d` is the Docker build of `bin` under the options.
pub open spec fn docker_build_matches(d: DockerBuild, bin: Seq<char>, script: Seq<char>, release: bool, repository: Seq<char>, source_hash: Seq<char>) -> bool {
    &&& d.bin@ == bin
    &&& d.dockerfile_name@ == "Dockerfile."@ + bin
    &&& d.dockerfile@ == dockerfile(script, profile_dir(release), bin)
    &&& d.image_tag@ == repository + bin + ":"@ + source_hash
}

/// All binaries of all build calls, in order.
pub open spec fn all_bins(calls: Seq<BuildCall>) -> Seq<Seq<char>>
    decreases calls.len(),
{
    if calls.len() == 0 {
        Seq::empty()
    } else {
        all_bins(calls.drop_last()) + views(calls.last().bins@)
    }
}

/// Whether the string ends with a slash.
pub open spec fn ends_with_slash(s: Seq<char>) -> bool {
    s.len() > 0 && s.last() == '/'
}

/// Law: the jobs flag is `--jobs ` followed by the whole jobs count in
/// decimal digits, which read back as the count.
pub proof fn lemma_jobs_flag_reads_back(j: usize)
    ensures
        jobs_flag(Some(j)).len() > 7,
        jobs_flag(Some(j)).subrange(0, 7) == "--jobs "@,
        digits_value(jobs_flag(Some(j)).subrange(7, jobs_flag(Some(j)).len() as int)) == j,
{
    reveal_strlit("--jobs ");
    let f = jobs_flag(Some(j));
    lemma_decimal_nonempty(j as nat);
    lemma_decimal_reads_back(j as nat);
    assert(f.subrange(0, 7) =~= "--jobs "@);
    assert(f.subrange(7, f.len() as int) =~= decimal(j as nat));
}

/// `--jobs {jobs}`, or an empty string.
fn make_jobs_flag(jobs: Option<usize>) -> (s: String)
    ensures
        s@ == jobs_flag(jobs),
        jobs is None ==> s@.len() == 0,
        jobs matches Some(j) ==> {
            &&& s@.len() > 7
            &&& s@.subrange(0, 7) == "--jobs "@
            &&& digits_value(s@.subrange(7, s@.len() as int)) == j
        },
{
    match jobs {
        Some(j) => {
            let mut s = String::from_str("--jobs ");
            push_decimal(&mut s, j as u64);
            proof {
                lemma_jobs_flag_reads_back(j);
            }
            s
        },
        None => String::new(),
    }
}

/// `--message-format={fmt}`, or an empty string.
fn make_format_flag(message_format: Option<&str>) -> (s: String)
    ensures
        s@ == format_flag(match message_format {
            Some(f) => Some(f@),
            None => None,
        }),
{
    match message_format {
        Some(f) => {
            let mut s = String::from_str("--message-format=");
            s.append(f);
            s
        },
        None => String::new(),
    }
}

/// `--bin {bin}` for each binary, separated by spaces.
fn make_bin_flags(bins: &Vec<String>) -> (s: String)
    ensures
        s@ == bin_flags(views(bins@)),
{
    let mut flags: Vec<String> = Vec::new();
    let mut i: usize = 0;
    while i < bins.len()
        invariant
            i <= bins@.len(),
            flags@.len() == i,
            forall|j: int| 0 <= j < i ==> (#[trigger] flags@[j])@ == "--bin "@ + bins@[j]@,
        decreases bins@.len() - i,
    {
        let mut f = String::from_str("--bin ");
        f.append(bins[i].as_str());
        flags.push(f);
        i = i + 1;
    }
    let s = join_strings(&flags, " ");
    assert(views(flags@) =~= views(bins@).map_values(|b: Seq<char>| "--bin "@ + b));
    s
}

/// The script step of one build call.
fn make_call_step(call: &BuildCall, jobs: &str, format: &str, release: &str) -> (s: String)
    ensures
        s@ == call_script(call.path@, jobs@, format@, release@, bin_flags(views(call.bins@))),
{
    let bins = make_bin_flags(&call.bins);
    let mut s = String::from_str("if [ $? -eq 0 ]; then\n\t(cd ");
    s.append(call.path.as_str());
    s.append(" && cargo build ");
    s.append(jobs);
    s.append(" ");
    s.append(format);
    s.append(" ");
    s.append(release);
    s.append(" ");
    s.append(bins.as_str());
    s.append(" --target-dir $TARGET_DIR)\nfi\n");
    s
}

/// The build script for the options; `message_format` is the local Cargo
/// message format setting, if any.
pub fn make_build_script(opts: &BuildOpts, message_format: Option<&str>) -> (s: String)
    ensures
        s@ == build_script(*opts, match message_format {
            Some(f) => Some(f@),
            None => None,
        }),
{
    let ghost fmt = match message_format {
        Some(f) => Some(f@),
        None => None,
    };
    let jobs = make_jobs_flag(opts.jobs);
    let format = make_format_flag(message_format);
    let release: &str = if opts.release { "--release" } else { "" };
    proof {
        reveal_strlit("");
    }
    assert(release@ == release_flag(opts.release));
    let mut steps: Vec<String> = Vec::new();
    let mut i: usize = 0;
    while i < opts.build_calls.len()
        invariant
            i <= opts.build_calls@.len(),
            steps@.len() == i,
            jobs@ == jobs_flag(opts.jobs),
            format@ == format_flag(fmt),
            release@ == release_flag(opts.release),
            forall|j: int| 0 <= j < i ==> (#[trigger] steps@[j])@ == call_step(opts.build_calls@[j], opts.jobs, fmt, opts.release),
        decreases opts.build_calls@.len() - i,
    {
        let step = make_call_step(&opts.build_calls[i], jobs.as_str(), format.as_str(), release);
        steps.push(step);
        i = i + 1;
    }
    let calls = join_strings(&steps, "\n");
    assert(views(steps@) =~= opts.build_calls@.map_values(|c: BuildCall| call_step(c, opts.jobs, fmt, opts.release)));
    let mut s = String::from_str("TARGET_DIR=$(readlink -f ./target)\n# Used for Tokio Console. See https://github.com/tokio-rs/console#using-it\nexport RUSTFLAGS=\"--cfg tokio_unstable\"\n# Used for debugging\n# export CARGO_LOG=cargo::core::compiler::fingerprint=info\n\n");
    s.append(calls.as_str());
    s.append("\n\nEXIT_CODE=$?\n");
    s
}

/// The Docker build of one binary, whose Dockerfile runs the script given
/// in its quoted form.
pub fn make_docker_build(bin: &String, quoted_script: &str, optimization: &str, repository: &str, source_hash: &str) -> (d: DockerBuild)
    ensures
        d.bin@ == bin@,
        d.dockerfile_name@ == "Dockerfile."@ + bin@,
        d.dockerfile@ == dockerfile_quoted(quoted_script@, optimization@, bin@),
        d.image_tag@ == repository@ + bin@ + ":"@ + source_hash@,
{
    let mut name = String::from_str("Dockerfile.");
    name.append(bin.as_str());
    let mut file = String::from_str("FROM rust:1.72-slim as build\n\nRUN apt-get update\nRUN apt-get install -y protobuf-compiler pkg-config libssl-dev\n\nWORKDIR /usr/rivet\nCOPY . .\nRUN [\"sh\", \"-c\", ");
    file.append(quoted_script);
    file.append("]\n\nFROM debian:12.1-slim as run\n\nCOPY --from=build /usr/rivet/target/");
    file.append(optimization);
    file.append("/");
    file.append(bin.as_str());
    file.append(" /bin/svc\nRUN apt-get update\nRUN apt-get -y install openssl\n\nCMD [\"bin/svc\"]\n");
    let mut tag = String::from_str(repository);
    tag.append(bin.as_str());
    tag.append(":");
    tag.append(source_hash);
    DockerBuild { bin: bin.clone(), dockerfile_name: name, dockerfile: file, image_tag: tag }
}

/// Plans a build. On a single node the whole script runs in one shell; on
/// a distributed cluster each binary gets a Docker image, tagged
/// `{repository}{bin}:{source_hash}`, whose Dockerfile runs the script. The
/// repository must end with a slash.
pub fn build_plan(
    opts: &BuildOpts,
    message_format: Option<&str>,
    cluster: ClusterKind,
    repository: &str,
    source_hash: &str,
) -> (res: Result<BuildPlan, BuildError>)
    ensures
        res is Err <==> (cluster == ClusterKind::Distributed && !ends_with_slash(repository@)),
        res matches Ok(plan) ==> {
            let script = exiting_script(*opts, match message_format {
                Some(f) => Some(f@),
                None => None,
            });
            match plan {
                BuildPlan::SingleNode { script: s } => cluster == ClusterKind::SingleNode && s@ == script,
                BuildPlan::Distributed { images } => {
                    let bins = all_bins(opts.build_calls@);
                    &&& cluster == ClusterKind::Distributed
                    &&& images@.len() == bins.len()
                    &&& forall|j: int| 0 <= j < images@.len() ==> docker_build_matches(
                        #[trigger] images@[j], bins[j], script, opts.release, repository@, source_hash@)
                }
            }
        },
{
    let mut script = make_build_script(opts, message_format);
    script.append("\n\n# Exit\nexit $EXIT_CODE\n");
    match cluster {
        ClusterKind::SingleNode => Ok(BuildPlan::SingleNode { script }),
        ClusterKind::Distributed => {
            let profile: &str = if opts.release { "release" } else { "debug" };
            assert(profile@ == profile_dir(opts.release));
            if !ends_with_slash_exec(repository) {
                return Err(BuildError::RepositoryWithoutSlash);
            }
            let quoted = debug_quote(script.as_str());
            let mut images: Vec<DockerBuild> = Vec::new();
            let mut c: usize = 0;
            while c < opts.build_calls.len()
                invariant
                    c <= opts.build_calls@.len(),
                    profile@ == profile_dir(opts.release),
                    quoted@ == debug_quoted(script@),
                    images@.len() == all_bins(opts.build_calls@.take(c as int)).len(),
                    forall|j: int| 0 <= j < images@.len() ==> docker_build_matches(
                        #[trigger] images@[j], all_bins(opts.build_calls@.take(c as int))[j], script@, opts.release, repository@, source_hash@),
                decreases opts.build_calls@.len() - c,
            {
                let call = &opts.build_calls[c];
                let ghost before = images@;
                let ghost prefix = all_bins(opts.build_calls@.take(c as int));
                let mut b: usize = 0;
                while b < call.bins.len()
                    invariant
                        b <= call.bins@.len(),
                        images@.len() == before.len() + b,
                        before.len() == prefix.len(),
                        profile@ == profile_dir(opts.release),
                        quoted@ == debug_quoted(script@),
                        forall|j: int| 0 <= j < before.len() ==> #[trigger] images@[j] == before[j],
                        forall|j: int| 0 <= j < before.len() ==> docker_build_matches(
                            #[trigger] before[j], prefix[j], script@, opts.release, repository@, source_hash@),
                        forall|j: int| 0 <= j < b ==> docker_build_matches(
                            #[trigger] images@[before.len() + j], call.bins@[j]@, script@, opts.release, repository@, source_hash@),
                    decreases call.bins@.len() - b,
                {
                    let d = make_docker_build(&call.bins[b], quoted.as_str(), profile, repository, source_hash);
                    images.push(d);
                    b = b + 1;
                }
                proof {
                    let next = opts.build_calls@.take((c + 1) as int);
                    assert(next.drop_last() =~= opts.build_calls@.take(c as int));
                    assert(next.last() == *call);
                    let bins_next = all_bins(next);
                    assert(bins_next =~= prefix + views(call.bins@));
                    assert forall|j: int| 0 <= j < images@.len() implies docker_build_matches(
                        #[trigger] images@[j], bins_next[j], script@, opts.release, repository@, source_hash@) by {
                        if j < before.len() {
                            assert(images@[j] == before[j]);
                        } else {
                            let k: int = j - before.len();
                            assert(images@[before.len() + k] == images@[j]);
                        }
                    }
                }
                c = c + 1;
            }
            assert(opts.build_calls@.take(opts.build_calls@.len() as int) =~= opts.build_calls@);
            Ok(BuildPlan::Distributed { images })
        },
    }
}

/// Whether the string ends with a slash.
fn ends_with_slash_exec(s: &str) -> (b: bool)
    ensures
        b == ends_with_slash(s@),
{
    let n: usize = s.unicode_len();
    if n == 0 {
        false
    } else {
        s.get_char(n - 1) == '/'
    }
}

} // verus!
