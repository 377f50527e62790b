use vstd::prelude::*;

use crate::index::LINE_FEED;

verus! {

/// A display style: the bytes written before and after the text it paints.
/// A plain style has both empty.
pub struct Style {
    pub prefix: Vec<u8>,
    pub suffix: Vec<u8>,
}

/// The four styles of a decorated line.
pub struct Theme {
    pub repo: Style,
    pub pkg: Style,
    pub version: Style,
    pub installed: Style,
}

/// `text` painted in `style`.
pub open spec fn painted(style: Style, text: Seq<u8>) -> Seq<u8> {
    style.prefix@ + text + style.suffix@
}

/// The source tag that opens a decorated line.
pub open spec fn repo_tag() -> Seq<u8> {
    seq![
        'a' as u8, 'u' as u8, 'r' as u8, ' ' as u8,
    ]
}

/// The version shown for every remote package: the index carries none.
pub open spec fn version_placeholder() -> Seq<u8> {
    seq![
        ' ' as u8, 'u' as u8, 'n' as u8, 'k' as u8, 'n' as u8, 'o' as u8, 'w' as u8,
        'n' as u8, '-' as u8, 'v' as u8, 'e' as u8, 'r' as u8, 's' as u8, 'i' as u8,
        'o' as u8, 'n' as u8,
    ]
}

/// The mark after an installed package.
pub open spec fn installed_mark() -> Seq<u8> {
    seq![
        ' ' as u8, '[' as u8, 'i' as u8, 'n' as u8, 's' as u8, 't' as u8, 'a' as u8,
        'l' as u8, 'l' as u8, 'e' as u8, 'd' as u8, ']' as u8,
    ]
}

/// The line shown for one package: its bare name in quiet mode; otherwise
/// the source tag, the name, the version placeholder and, for an installed
/// package, the installed mark, each in its own style.
pub open spec fn record_line(name: Seq<u8>, quiet: bool, installed: bool, theme: Theme) -> Seq<u8> {
    if quiet {
        name.push(LINE_FEED)
    } else {
        (painted(theme.repo, repo_tag()) + painted(theme.pkg, name) + painted(
            theme.version,
            version_placeholder(),
        ) + if installed {
            painted(theme.installed, installed_mark())
        } else {
            Seq::empty()
        }).push(LINE_FEED)
    }
}

/// The lines of every package, in order; `installed[i]` tells whether the
/// package `records[i]` is installed.
pub open spec fn listing(
    records: Seq<Seq<u8>>,
    quiet: bool,
    installed: Seq<bool>,
    theme: Theme,
) -> Seq<u8>
    decreases records.len(),
{
    if records.len() == 0 {
        Seq::empty()
    } else {
        let n = records.len() - 1;
        listing(records.drop_last(), quiet, installed.subrange(0, n), theme) + record_line(
            records[n],
            quiet,
            installed[n],
            theme,
        )
    }
}

/// Appends `b` to `out`.
fn append_bytes(out: &mut Vec<u8>, b: &Vec<u8>)
    ensures
        final(out)@ == old(out)@ + b@,
{
    let ghost start = out@;
    let mut i: usize = 0;
    while i < b.len()
        invariant
            i <= b@.len(),
            out@ == start + b@.subrange(0, i as int),
        decreases b@.len() - i,
    {
        out.push(b[i]);
        assert(b@.subrange(0, i + 1) =~= b@.subrange(0, i as int).push(b@[i as int]));
        i = i + 1;
    }
    assert(b@.subrange(0, b@.len() as int) =~= b@);
}

/// Appends `text` painted in `style` to `out`.
fn append_painted(out: &mut Vec<u8>, style: &Style, text: &Vec<u8>)
    ensures
        final(out)@ == old(out)@ + painted(*style, text@),
{
    append_bytes(out, &style.prefix);
    append_bytes(out, text);
    append_bytes(out, &style.suffix);
    assert(out@ =~= old(out)@ + painted(*style, text@));
}

fn repo_tag_bytes() -> (r: Vec<u8>)
    ensures
        r@ == repo_tag(),
{
    let r = vec![
        'a' as u8, 'u' as u8, 'r' as u8, ' ' as u8,
    ];
    assert(r@ =~= repo_tag());
    r
}

fn version_placeholder_bytes() -> (r: Vec<u8>)
    ensures
        r@ == version_placeholder(),
{
    let r = vec![
        ' ' as u8, 'u' as u8, 'n' as u8, 'k' as u8, 'n' as u8, 'o' as u8, 'w' as u8,
        'n' as u8, '-' as u8, 'v' as u8, 'e' as u8, 'r' as u8, 's' as u8, 'i' as u8,
        'o' as u8, 'n' as u8,
    ];
    assert(r@ =~= version_placeholder());
    r
}

fn installed_mark_bytes() -> (r: Vec<u8>)
    ensures
        r@ == installed_mark(),
{
    let r = vec![
        ' ' as u8, '[' as u8, 'i' as u8, 'n' as u8, 's' as u8, 't' as u8, 'a' as u8,
        'l' as u8, 'l' as u8, 'e' as u8, 'd' as u8, ']' as u8,
    ];
    assert(r@ =~= installed_mark());
    r
}

/// Appends the line of one package to `out`.
pub fn render_record(out: &mut Vec<u8>, name: &Vec<u8>, quiet: bool, installed: bool, theme: &Theme)
    ensures
        final(out)@ == old(out)@ + record_line(name@, quiet, installed, *theme),
{
    if quiet {
        append_bytes(out, name);
        out.push(LINE_FEED);
        assert(out@ =~= old(out)@ + name@.push(LINE_FEED));
    } else {
        append_painted(out, &theme.repo, &repo_tag_bytes());
        append_painted(out, &theme.pkg, name);
        append_painted(out, &theme.version, &version_placeholder_bytes());
        if installed {
            append_painted(out, &theme.installed, &installed_mark_bytes());
        }
        out.push(LINE_FEED);
        assert(out@ =~= old(out)@ + record_line(name@, quiet, installed, *theme));
    }
}

/// Renders the listing of `records`, one line each, in order.
pub fn render_listing(records: &Vec<Vec<u8>>, quiet: bool, installed: &Vec<bool>, theme: &Theme) -> (r: Vec<u8>)
    requires
        installed@.len() == records@.len(),
    ensures
        r@ == listing(crate::index::byte_views(records@), quiet, installed@, *theme),
{
    let ghost recs = crate::index::byte_views(records@);
    let mut out: Vec<u8> = Vec::new();
    let mut i: usize = 0;
    assert(recs.subrange(0, 0) =~= Seq::<Seq<u8>>::empty());
    while i < records.len()
        invariant
            i <= records@.len(),
            installed@.len() == records@.len(),
            recs == crate::index::byte_views(records@),
            out@ == listing(recs.subrange(0, i as int), quiet, installed@.subrange(0, i as int), *theme),
        decreases records@.len() - i,
    {
        render_record(&mut out, &records[i], quiet, installed[i], theme);
        let ghost next = recs.subrange(0, i + 1);
        assert(next.drop_last() =~= recs.subrange(0, i as int));
        assert(installed@.subrange(0, i + 1).subrange(0, i as int) =~= installed@.subrange(0, i as int));
        i = i + 1;
    }
    assert(recs.subrange(0, recs.len() as int) =~= recs);
    assert(installed@.subrange(0, recs.len() as int) =~= installed@);
    out
}

} // verus!
