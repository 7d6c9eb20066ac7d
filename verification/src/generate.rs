use vstd::prelude::*;
use vstd::string::StringExecFns;
use vstd::string::StrSliceExecFns;

verus! {

/// Everything of the desktop entry that stands before the executable path
/// on the `Exec=` line.
pub open spec fn desktop_pre() -> Seq<char> {
    "[Desktop Entry]\nVersion=0.1.0\nName=WebSteer\nGenericName=Web Browser\nComment=Route urls to browsers\nExec="@
}

/// Everything of the desktop entry that stands after the executable path on
/// the `Exec=` line, beginning with the ` open %U` argument template.
pub open spec fn desktop_post() -> Seq<char> {
    " open %U\nStartupNotify=true\nTerminal=false\nType=Application\nCategories=Network;WebBrowser;\nMimeType=x-scheme-handler/unknown;x-scheme-handler/about;text/html;text/xml;application/xhtml_xml;image/webp;x-scheme-handler/http;x-scheme-handler/https;x-scheme-handler/ftp;"@
}

/// The whole desktop entry for the executable at `exe`.
pub open spec fn spec_desktop_content(exe: Seq<char>) -> Seq<char> {
    desktop_pre() + exe + desktop_post()
}

/// Render the desktop entry that makes `exe` the handler for web URLs.
pub fn desktop_file_content(exe: &str) -> (r: String)
    ensures
        r@ == spec_desktop_content(exe@),
{
    let mut s = String::from_str(
        "[Desktop Entry]\nVersion=0.1.0\nName=WebSteer\nGenericName=Web Browser\nComment=Route urls to browsers\nExec=",
    );
    s.append(exe);
    s.append(
        " open %U\nStartupNotify=true\nTerminal=false\nType=Application\nCategories=Network;WebBrowser;\nMimeType=x-scheme-handler/unknown;x-scheme-handler/about;text/html;text/xml;application/xhtml_xml;image/webp;x-scheme-handler/http;x-scheme-handler/https;x-scheme-handler/ftp;",
    );
    proof {
        assert(s@ =~= spec_desktop_content(exe@));
    }
    s
}

/// Whether an `Exec=` key starts at position `i` of `s`: the five key
/// characters stand there, at the start of `s` or right after a newline.
pub open spec fn spec_is_exec_start(s: Seq<char>, i: int) -> bool {
    &&& 0 <= i
    &&& i + 5 <= s.len()
    &&& (i == 0 || s[i - 1] == '\n')
    &&& s[i] == 'E'
    &&& s[i + 1] == 'x'
    &&& s[i + 2] == 'e'
    &&& s[i + 3] == 'c'
    &&& s[i + 4] == '='
}

/// The first position at or after `i` where an `Exec=` key starts a line.
pub open spec fn spec_find_exec_start(s: Seq<char>, i: int) -> Option<int>
    decreases s.len() - i,
{
    if i < 0 || i + 5 > s.len() {
        None
    } else if spec_is_exec_start(s, i) {
        Some(i)
    } else {
        spec_find_exec_start(s, i + 1)
    }
}

/// The position of the first newline at or after `i`, or the length of `s`
/// when the rest of `s` holds none.
pub open spec fn spec_find_newline(s: Seq<char>, i: int) -> int
    decreases s.len() - i,
{
    if i < 0 || i >= s.len() {
        s.len() as int
    } else if s[i] == '\n' {
        i
    } else {
        spec_find_newline(s, i + 1)
    }
}

/// What re-reading a desktop file yields: the text of the first `Exec=`
/// line after its key, up to the end of that line.
pub open spec fn spec_exec_line(s: Seq<char>) -> Option<Seq<char>> {
    match spec_find_exec_start(s, 0) {
        Some(i) => Some(s.subrange(i + 5, spec_find_newline(s, i + 5))),
        None => None,
    }
}

/// Test whether an `Exec=` key starts a line at position `i`.
fn is_exec_start_at(content: &str, i: usize, n: usize) -> (r: bool)
    requires
        n == content@.len(),
        i + 5 <= n,
    ensures
        r == spec_is_exec_start(content@, i as int),
{
    (i == 0 || content.get_char(i - 1) == '\n') && content.get_char(i) == 'E' && content.get_char(
        i + 1,
    ) == 'x' && content.get_char(i + 2) == 'e' && content.get_char(i + 3) == 'c'
        && content.get_char(i + 4) == '='
}

/// Re-read a desktop file: the text of its first `Exec=` line after the
/// key, or `None` when no line starts with `Exec=`.
pub fn parse_exec_line(content: &str) -> (r: Option<String>)
    ensures
        match r {
            Some(line) => spec_exec_line(content@) == Some(line@),
            None => spec_exec_line(content@) is None,
        },
{
    let n = content.unicode_len();
    let mut i: usize = 0;
    let mut start: Option<usize> = None;
    while start.is_none() && n >= 5 && i <= n - 5
        invariant
            n == content@.len(),
            i <= n,
            match start {
                Some(j) => j + 5 <= n && spec_find_exec_start(content@, 0) == Some(j as int),
                None => spec_find_exec_start(content@, 0) == spec_find_exec_start(
                    content@,
                    i as int,
                ),
            },
        decreases n - i + (if start is None { 1int } else { 0int }),
    {
        assert(i + 5 <= n);
        if is_exec_start_at(content, i, n) {
            start = Some(i);
        } else {
            i = i + 1;
        }
    }
    match start {
        None => {
            proof {
                assert(spec_find_exec_start(content@, i as int) is None);
            }
            None
        },
        Some(st) => {
            let mut j: usize = st + 5;
            while j < n && content.get_char(j) != '\n'
                invariant
                    n == content@.len(),
                    st + 5 <= j <= n,
                    spec_find_newline(content@, (st + 5) as int) == spec_find_newline(
                        content@,
                        j as int,
                    ),
                decreases n - j,
            {
                j = j + 1;
            }
            Some(content.substring_char(st + 5, j).to_owned())
        },
    }
}

proof fn lemma_find_exec_start_lands(s: Seq<char>, a: int, b: int)
    requires
        0 <= a <= b,
        spec_is_exec_start(s, b),
        forall|i: int| a <= i < b ==> !spec_is_exec_start(s, i),
    ensures
        spec_find_exec_start(s, a) == Some(b),
    decreases b - a,
{
    if a < b {
        lemma_find_exec_start_lands(s, a + 1, b);
    }
}

proof fn lemma_find_newline_lands(s: Seq<char>, a: int, b: int)
    requires
        0 <= a <= b < s.len(),
        s[b] == '\n',
        forall|i: int| a <= i < b ==> s[i] != '\n',
    ensures
        spec_find_newline(s, a) == b,
    decreases b - a,
{
    if a < b {
        lemma_find_newline_lands(s, a + 1, b);
    }
}

/// Round trip: re-reading a generated desktop file yields its `Exec=` line,
/// the executable path followed by ` open %U`. An executable path that
/// itself holds a newline would break the line apart, so it is left out.
pub proof fn lemma_desktop_round_trip(exe: Seq<char>)
    requires
        forall|k: int| 0 <= k < exe.len() ==> exe[k] != '\n',
    ensures
        spec_exec_line(spec_desktop_content(exe)) == Some(exe + " open %U"@),
{
    reveal_strlit(
        "[Desktop Entry]\nVersion=0.1.0\nName=WebSteer\nGenericName=Web Browser\nComment=Route urls to browsers\nExec=",
    );
    reveal_strlit(
        " open %U\nStartupNotify=true\nTerminal=false\nType=Application\nCategories=Network;WebBrowser;\nMimeType=x-scheme-handler/unknown;x-scheme-handler/about;text/html;text/xml;application/xhtml_xml;image/webp;x-scheme-handler/http;x-scheme-handler/https;x-scheme-handler/ftp;",
    );
    reveal_strlit(" open %U");
    let pre = desktop_pre();
    let post = desktop_post();
    let s = spec_desktop_content(exe);
    let m = exe.len() as int;
    assert(pre.len() == 104);
    assert(s.len() == 104 + m + post.len());
    assert forall|i: int| 0 <= i < 104 implies s[i] == pre[i] by {
        assert((pre + exe)[i] == pre[i]);
    }
    assert forall|k: int| 0 <= k < m implies s[104 + k] == exe[k] by {
        assert((pre + exe)[104 + k] == exe[k]);
    }
    assert forall|j: int| 0 <= j < post.len() implies s[104 + m + j] == post[j] by {}
    assert forall|i: int| 0 <= i < 99 implies !spec_is_exec_start(s, i) by {
        if spec_is_exec_start(s, i) {
            assert(s[i] == pre[i] && s[i + 1] == pre[i + 1]);
            assert(pre[i] == 'E' && pre[i + 1] == 'x');
        }
    }
    assert(spec_is_exec_start(s, 99)) by {
        assert(s[98] == pre[98] && s[99] == pre[99] && s[100] == pre[100] && s[101] == pre[101]
            && s[102] == pre[102] && s[103] == pre[103]);
    }
    lemma_find_exec_start_lands(s, 0, 99);
    assert(s[104 + m + 8] == '\n');
    assert forall|i: int| 104 <= i < 104 + m + 8 implies s[i] != '\n' by {
        if i < 104 + m {
            assert(s[i] == exe[i - 104]);
        } else {
            assert(s[i] == post[i - 104 - m]);
        }
    }
    lemma_find_newline_lands(s, 104, 104 + m + 8);
    assert(s.subrange(104, 104 + m + 8) =~= exe + " open %U"@);
}

} // verus!
