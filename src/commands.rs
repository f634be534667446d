//! The text of the shell commands that the pipeline runs on a host.

use vstd::prelude::*;
use crate::text::push_all;

verus! {

/// Creates a directory and its parents; nothing happens if it exists.
pub fn mkdir_command(path: &str) -> (r: String)
    ensures
        r@ == "mkdir -p "@ + path@,
{
    let mut r = String::new();
    push_all(&mut r, "mkdir -p ");
    push_all(&mut r, path);
    r
}

/// Checks the pushed branch out of the bare repository into the release directory.
pub fn checkout_command(release_path: &str, repo_path: &str, branch: &str) -> (r: String)
    ensures
        r@ == "git --work-tree="@ + release_path@ + " --git-dir="@ + repo_path@ + " checkout -f "@ + branch@,
{
    let mut r = String::new();
    push_all(&mut r, "git --work-tree=");
    push_all(&mut r, release_path);
    push_all(&mut r, " --git-dir=");
    push_all(&mut r, repo_path);
    push_all(&mut r, " checkout -f ");
    push_all(&mut r, branch);
    r
}

/// Links the shared environment file into the release directory.
pub fn link_env_command(shared_env: &str, release_env: &str) -> (r: String)
    ensures
        r@ == "ln -sf "@ + shared_env@ + " "@ + release_env@,
{
    let mut r = String::new();
    push_all(&mut r, "ln -sf ");
    push_all(&mut r, shared_env);
    push_all(&mut r, " ");
    push_all(&mut r, release_env);
    r
}

/// Makes a file readable by its owner only.
pub fn chmod_private_command(path: &str) -> (r: String)
    ensures
        r@ == "chmod 600 "@ + path@,
{
    let mut r = String::new();
    push_all(&mut r, "chmod 600 ");
    push_all(&mut r, path);
    r
}

/// Builds the release's images on the host.
pub fn compose_build_command(release_path: &str) -> (r: String)
    ensures
        r@ == "cd "@ + release_path@ + " && docker compose build"@,
{
    let mut r = String::new();
    push_all(&mut r, "cd ");
    push_all(&mut r, release_path);
    push_all(&mut r, " && docker compose build");
    r
}

/// Starts a release's containers in the background.
pub fn compose_up_command(release_path: &str) -> (r: String)
    ensures
        r@ == "cd "@ + release_path@ + " && docker compose up -d"@,
{
    let mut r = String::new();
    push_all(&mut r, "cd ");
    push_all(&mut r, release_path);
    push_all(&mut r, " && docker compose up -d");
    r
}

/// Stops and removes a release's containers.
pub fn compose_down_command(release_path: &str) -> (r: String)
    ensures
        r@ == "cd "@ + release_path@ + " && docker compose down"@,
{
    let mut r = String::new();
    push_all(&mut r, "cd ");
    push_all(&mut r, release_path);
    push_all(&mut r, " && docker compose down");
    r
}

/// Stops the containers of the release that a link points at.
pub fn stop_linked_command(current_path: &str) -> (r: String)
    ensures
        r@ == "cd $(readlink -f "@ + current_path@ + ") && docker compose down"@,
{
    let mut r = String::new();
    push_all(&mut r, "cd $(readlink -f ");
    push_all(&mut r, current_path);
    push_all(&mut r, ") && docker compose down");
    r
}

/// Prints the container id of a service of a release.
pub fn container_id_command(release_path: &str, service: &str) -> (r: String)
    ensures
        r@ == "cd "@ + release_path@ + " && docker compose ps -q "@ + service@,
{
    let mut r = String::new();
    push_all(&mut r, "cd ");
    push_all(&mut r, release_path);
    push_all(&mut r, " && docker compose ps -q ");
    push_all(&mut r, service);
    r
}

/// Prints a container's health status.
pub fn health_status_command(container_id: &str) -> (r: String)
    ensures
        r@ == "docker inspect --format='{{.State.Health.Status}}' "@ + container_id@,
{
    let mut r = String::new();
    push_all(&mut r, "docker inspect --format='{{.State.Health.Status}}' ");
    push_all(&mut r, container_id);
    r
}

/// Succeeds when the path exists.
pub fn path_exists_command(path: &str) -> (r: String)
    ensures
        r@ == "test -e "@ + path@,
{
    let mut r = String::new();
    push_all(&mut r, "test -e ");
    push_all(&mut r, path);
    r
}

/// Prints a file.
pub fn read_file_command(path: &str) -> (r: String)
    ensures
        r@ == "cat "@ + path@,
{
    let mut r = String::new();
    push_all(&mut r, "cat ");
    push_all(&mut r, path);
    r
}

/// Points `link` at `target` by renaming a fresh link over it, so that readers see either the old or the new target.
pub fn symlink_swap_command(target: &str, link: &str) -> (r: String)
    ensures
        r@ == "ln -sfn "@ + target@ + " "@ + link@ + "_tmp && mv -Tf "@ + link@ + "_tmp "@ + link@,
{
    let mut r = String::new();
    push_all(&mut r, "ln -sfn ");
    push_all(&mut r, target);
    push_all(&mut r, " ");
    push_all(&mut r, link);
    push_all(&mut r, "_tmp && mv -Tf ");
    push_all(&mut r, link);
    push_all(&mut r, "_tmp ");
    push_all(&mut r, link);
    r
}

/// Lists a directory, one name per line.
pub fn list_releases_command(releases_dir: &str) -> (r: String)
    ensures
        r@ == "ls -1 "@ + releases_dir@,
{
    let mut r = String::new();
    push_all(&mut r, "ls -1 ");
    push_all(&mut r, releases_dir);
    r
}

/// Removes a directory and its contents.
pub fn remove_dir_command(path: &str) -> (r: String)
    ensures
        r@ == "rm -rf "@ + path@,
{
    let mut r = String::new();
    push_all(&mut r, "rm -rf ");
    push_all(&mut r, path);
    r
}

/// Prints the revision at the head of a repository.
pub fn git_head_command(repo_path: &str) -> (r: String)
    ensures
        r@ == "git --git-dir="@ + repo_path@ + " rev-parse HEAD"@,
{
    let mut r = String::new();
    push_all(&mut r, "git --git-dir=");
    push_all(&mut r, repo_path);
    push_all(&mut r, " rev-parse HEAD");
    r
}

/// The URL that code is pushed to: `ssh://<user>@<host><repo_path>`.
pub fn push_url(user: &str, host: &str, repo_path: &str) -> (r: String)
    ensures
        r@ == "ssh://"@ + user@ + "@"@ + host@ + repo_path@,
{
    let mut r = String::new();
    push_all(&mut r, "ssh://");
    push_all(&mut r, user);
    push_all(&mut r, "@");
    push_all(&mut r, host);
    push_all(&mut r, repo_path);
    r
}

/// The refspec that pushes HEAD to the configured branch.
pub fn push_refspec(branch: &str) -> (r: String)
    ensures
        r@ == "HEAD:refs/heads/"@ + branch@,
{
    let mut r = String::new();
    push_all(&mut r, "HEAD:refs/heads/");
    push_all(&mut r, branch);
    r
}

/// Removes an old release's containers, and its images: all of them for
/// locally built releases, else only those built on the host. Failures are
/// ignored.
pub fn remove_release_containers_command(release_path: &str, local_build: bool) -> (r: String)
    ensures
        r@ == "cd "@ + release_path@ + " && docker compose down --rmi "@ + (if local_build {
            "all"@
        } else {
            "local"@
        }) + " 2>/dev/null || true"@,
{
    let mut r = String::new();
    push_all(&mut r, "cd ");
    push_all(&mut r, release_path);
    push_all(&mut r, " && docker compose down --rmi ");
    if local_build {
        push_all(&mut r, "all");
    } else {
        push_all(&mut r, "local");
    }
    push_all(&mut r, " 2>/dev/null || true");
    r
}

/// `s` with each `'` written as `'\''`, for use inside single quotes.
pub open spec fn quote_single_spec(s: Seq<char>) -> Seq<char>
    decreases s.len(),
{
    if s.len() == 0 {
        seq![]
    } else {
        quote_single_spec(s.drop_last()) + if s.last() == '\'' {
            seq!['\'', '\\', '\'', '\'']
        } else {
            seq![s.last()]
        }
    }
}

/// `s` with each `'` written as `'\''`.
pub fn quote_single(s: &str) -> (r: String)
    ensures
        r@ == quote_single_spec(s@),
{
    let v = crate::text::chars_of(s);
    let mut r = String::new();
    let mut i: usize = 0;
    while i < v.len()
        invariant
            v@ == s@,
            i <= v@.len(),
            r@ == quote_single_spec(s@.subrange(0, i as int)),
        decreases v@.len() - i,
    {
        let ghost before = r@;
        assert(s@.subrange(0, i + 1).drop_last() =~= s@.subrange(0, i as int));
        if v[i] == '\'' {
            r.push('\'');
            r.push('\\');
            r.push('\'');
            r.push('\'');
        } else {
            r.push(v[i]);
        }
        i = i + 1;
        assert(r@ =~= quote_single_spec(s@.subrange(0, i as int)));
    }
    assert(s@.subrange(0, v@.len() as int) =~= s@);
    r
}

/// Whether some line of `content` is exactly the here-document delimiter
/// `SHIPIT_EOF`, which would end the document early.
pub open spec fn has_delimiter_line(content: Seq<char>) -> bool {
    crate::text::contains_seq("\n"@ + content + "\n"@, "\nSHIPIT_EOF\n"@)
}

fn has_delimiter_line_exec(content: &str) -> (r: bool)
    ensures
        r == has_delimiter_line(content@),
{
    let mut framed = String::new();
    push_all(&mut framed, "\n");
    push_all(&mut framed, content);
    push_all(&mut framed, "\n");
    crate::text::contains_str(framed.as_str(), "\nSHIPIT_EOF\n")
}

/// Writes `content` to `path` through a quoted here-document, which stores
/// its body as written. `None` when a line of `content` is the delimiter.
pub fn write_file_command(path: &str, content: &str) -> (r: Option<String>)
    ensures
        match r {
            Some(c) => !has_delimiter_line(content@) && c@ == "cat > "@ + path@ + " << 'SHIPIT_EOF'\n"@
                + content@ + "\nSHIPIT_EOF"@,
            None => has_delimiter_line(content@),
        },
{
    if has_delimiter_line_exec(content) {
        return None;
    }
    let mut r = String::new();
    push_all(&mut r, "cat > ");
    push_all(&mut r, path);
    push_all(&mut r, " << 'SHIPIT_EOF'\n");
    push_all(&mut r, content);
    push_all(&mut r, "\nSHIPIT_EOF");
    Some(r)
}

/// Writes `content` to `path` as root through a quoted here-document.
/// `None` when a line of `content` is the delimiter.
pub fn sudo_write_file_command(path: &str, content: &str) -> (r: Option<String>)
    ensures
        match r {
            Some(c) => !has_delimiter_line(content@) && c@ == "sudo tee "@ + path@
                + " > /dev/null << 'SHIPIT_EOF'\n"@ + content@ + "\nSHIPIT_EOF"@,
            None => has_delimiter_line(content@),
        },
{
    if has_delimiter_line_exec(content) {
        return None;
    }
    let mut r = String::new();
    push_all(&mut r, "sudo tee ");
    push_all(&mut r, path);
    push_all(&mut r, " > /dev/null << 'SHIPIT_EOF'\n");
    push_all(&mut r, content);
    push_all(&mut r, "\nSHIPIT_EOF");
    Some(r)
}

/// Runs `cmd` as root in a shell.
pub fn sudo_command(cmd: &str) -> (r: String)
    ensures
        r@ == "sudo bash -c '"@ + quote_single_spec(cmd@) + "'"@,
{
    let q = quote_single(cmd);
    let mut r = String::new();
    push_all(&mut r, "sudo bash -c '");
    push_all(&mut r, q.as_str());
    push_all(&mut r, "'");
    r
}

/// Sets `KEY=VALUE` in a remote environment file, replacing the key's
/// previous line.
pub fn env_set_command(key: &str, value: &str, env_path: &str) -> (r: String)
    ensures
        r@ == "grep -v '^"@ + key@ + "=' "@ + env_path@ + " > "@ + env_path@ + ".tmp 2>/dev/null || true && echo '"@
            + key@ + "="@ + value@ + "' >> "@ + env_path@ + ".tmp && mv "@ + env_path@ + ".tmp "@ + env_path@,
{
    let mut r = String::new();
    push_all(&mut r, "grep -v '^");
    push_all(&mut r, key);
    push_all(&mut r, "=' ");
    push_all(&mut r, env_path);
    push_all(&mut r, " > ");
    push_all(&mut r, env_path);
    push_all(&mut r, ".tmp 2>/dev/null || true && echo '");
    push_all(&mut r, key);
    push_all(&mut r, "=");
    push_all(&mut r, value);
    push_all(&mut r, "' >> ");
    push_all(&mut r, env_path);
    push_all(&mut r, ".tmp && mv ");
    push_all(&mut r, env_path);
    push_all(&mut r, ".tmp ");
    push_all(&mut r, env_path);
    r
}

/// Removes a key's line from a remote environment file.
pub fn env_unset_command(key: &str, env_path: &str) -> (r: String)
    ensures
        r@ == "grep -v '^"@ + key@ + "=' "@ + env_path@ + " > "@ + env_path@ + ".tmp 2>/dev/null && mv "@ + env_path@
            + ".tmp "@ + env_path@ + " || true"@,
{
    let mut r = String::new();
    push_all(&mut r, "grep -v '^");
    push_all(&mut r, key);
    push_all(&mut r, "=' ");
    push_all(&mut r, env_path);
    push_all(&mut r, " > ");
    push_all(&mut r, env_path);
    push_all(&mut r, ".tmp 2>/dev/null && mv ");
    push_all(&mut r, env_path);
    push_all(&mut r, ".tmp ");
    push_all(&mut r, env_path);
    push_all(&mut r, " || true");
    r
}

/// Shows the last `lines` log lines of the live release, optionally
/// following them and for one service only.
pub fn logs_command(current_path: &str, lines: u64, follow: bool, service: &Option<String>) -> (r: String)
    ensures
        r@ == "cd $(readlink -f "@ + current_path@ + ") && docker compose logs --tail="@ + crate::release::decimal(lines as nat)
            + (if follow { " -f"@ } else { seq![] }) + (match service {
            Some(s) => " "@ + s@,
            None => seq![],
        }),
{
    let mut r = String::new();
    push_all(&mut r, "cd $(readlink -f ");
    push_all(&mut r, current_path);
    push_all(&mut r, ") && docker compose logs --tail=");
    crate::release::push_decimal(&mut r, lines);
    if follow {
        push_all(&mut r, " -f");
    }
    if let Some(s) = service {
        push_all(&mut r, " ");
        push_all(&mut r, s.as_str());
    }
    r
}

/// Runs a one-off command in the primary service of the live release.
pub fn run_command(current_path: &str, web_service: &str, cmd: &str) -> (r: String)
    ensures
        r@ == "cd $(readlink -f "@ + current_path@ + ") && docker compose exec "@ + web_service@ + " "@ + cmd@,
{
    let mut r = String::new();
    push_all(&mut r, "cd $(readlink -f ");
    push_all(&mut r, current_path);
    push_all(&mut r, ") && docker compose exec ");
    push_all(&mut r, web_service);
    push_all(&mut r, " ");
    push_all(&mut r, cmd);
    r
}

/// Prints the id of the running container with exactly this name.
pub fn container_running_command(name: &str) -> (r: String)
    ensures
        r@ == "docker ps -q -f name=^"@ + name@ + "$"@,
{
    let mut r = String::new();
    push_all(&mut r, "docker ps -q -f name=^");
    push_all(&mut r, name);
    push_all(&mut r, "$");
    r
}

/// Removes a stopped container; failures are ignored.
pub fn remove_container_command(name: &str) -> (r: String)
    ensures
        r@ == "docker rm "@ + name@ + " 2>/dev/null || true"@,
{
    let mut r = String::new();
    push_all(&mut r, "docker rm ");
    push_all(&mut r, name);
    push_all(&mut r, " 2>/dev/null || true");
    r
}

/// Stops and removes a container.
pub fn stop_container_command(name: &str) -> (r: String)
    ensures
        r@ == "docker stop "@ + name@ + " && docker rm "@ + name@,
{
    let mut r = String::new();
    push_all(&mut r, "docker stop ");
    push_all(&mut r, name);
    push_all(&mut r, " && docker rm ");
    push_all(&mut r, name);
    r
}

/// Stops and removes a container, ignoring failures.
pub fn force_stop_container_command(name: &str) -> (r: String)
    ensures
        r@ == "docker stop "@ + name@ + " 2>/dev/null || true && docker rm "@ + name@ + " 2>/dev/null || true"@,
{
    let mut r = String::new();
    push_all(&mut r, "docker stop ");
    push_all(&mut r, name);
    push_all(&mut r, " 2>/dev/null || true && docker rm ");
    push_all(&mut r, name);
    push_all(&mut r, " 2>/dev/null || true");
    r
}
/// Shows an accessory container's logs, following them when asked.
pub fn container_logs_command(name: &str, follow: bool) -> (r: String)
    ensures
        r@ == "docker logs --tail 100"@ + (if follow { " -f"@ } else { seq![] }) + " "@ + name@,
{
    let mut r = String::new();
    push_all(&mut r, "docker logs --tail 100");
    if follow {
        push_all(&mut r, " -f");
    }
    push_all(&mut r, " ");
    push_all(&mut r, name);
    r
}

} // verus!
