use vstd::prelude::*;

verus! {

/// The path with every leading `/` removed.
pub open spec fn strip_leading_slashes(p: Seq<char>) -> Seq<char>
    decreases p.len(),
{
    if p.len() > 0 && p[0] == '/' {
        strip_leading_slashes(p.drop_first())
    } else {
        p
    }
}

/// File name used when a URL path names a directory.
pub open spec fn default_file_spec() -> Seq<char> {
    "index.html"@
}

/// Directory name used in crawl mode when the URL has no host.
pub open spec fn default_dir_spec() -> Seq<char> {
    "download"@
}

/// The relative local path for a URL path: the default file name for an empty
/// path or one that ends in `/`, else the path without its leading slashes.
pub open spec fn relative_path_spec(p: Seq<char>) -> Seq<char> {
    if p.len() == 0 || p.last() == '/' {
        default_file_spec()
    } else {
        strip_leading_slashes(p)
    }
}

/// The destination of a download.
/// In crawl mode: the relative path under a directory named after the host.
/// Otherwise: the explicit output path if one was given, else the relative path.
pub open spec fn output_path_spec(
    path: Seq<char>,
    host: Option<Seq<char>>,
    output: Option<Seq<char>>,
    recursive: bool,
) -> Seq<char> {
    if recursive {
        let dir = match host {
            Some(h) => h,
            None => default_dir_spec(),
        };
        dir + seq!['/'] + relative_path_spec(path)
    } else {
        match output {
            Some(o) => o,
            None => relative_path_spec(path),
        }
    }
}

pub open spec fn opt_chars(o: Option<String>) -> Option<Seq<char>> {
    match o {
        Some(s) => Some(s@),
        None => None,
    }
}

proof fn lemma_strip_step(p: Seq<char>, i: int)
    requires
        0 <= i < p.len(),
        p[i] == '/',
    ensures
        strip_leading_slashes(p.subrange(i, p.len() as int)) == strip_leading_slashes(
            p.subrange(i + 1, p.len() as int),
        ),
{
    assert(p.subrange(i, p.len() as int).drop_first() =~= p.subrange(i + 1, p.len() as int));
}

/// Local relative path derived from a URL path.
pub fn relative_path(path: &str) -> (r: String)
    ensures
        r@ == relative_path_spec(path@),
{
    let n = path.unicode_len();
    if n == 0 || path.get_char(n - 1) == '/' {
        return String::from_str("index.html");
    }
    let mut i: usize = 0;
    assert(path@.subrange(0, n as int) =~= path@);
    while i < n && path.get_char(i) == '/'
        invariant
            0 <= i <= n,
            n == path@.len(),
            path@[n - 1] != '/',
            forall|j: int| 0 <= j < i ==> path@[j] == '/',
            strip_leading_slashes(path@) == strip_leading_slashes(path@.subrange(i as int, n as int)),
        decreases n - i,
    {
        proof {
            lemma_strip_step(path@, i as int);
        }
        i = i + 1;
    }
    let rest = path.substring_char(i, n);
    proof {
        if i == n {
            // every character is a slash, so the last one is too
            assert(path@[n - 1] == '/');
        }
    }
    String::from_str(rest)
}

/// Local destination path for a download of a URL with the given path and
/// host, under the configured output path and crawl mode.
pub fn output_path(path: &str, host: &Option<String>, output: &Option<String>, recursive: bool) -> (r: String)
    ensures
        r@ == output_path_spec(path@, opt_chars(*host), opt_chars(*output), recursive),
{
    if recursive {
        let mut dir = match host {
            Some(h) => h.clone(),
            None => String::from_str("download"),
        };
        dir.append("/");
        let rel = relative_path(path);
        dir.append(rel.as_str());
        proof {
            reveal_strlit("/");
        }
        dir
    } else {
        match output {
            Some(o) => o.clone(),
            None => relative_path(path),
        }
    }
}

} // verus!
