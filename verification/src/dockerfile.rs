use parse_dockerfile::{Instruction, Source};
use std::io::Write;
use vstd::prelude::*;

use crate::model::Build;
use crate::text::{after_first_line, join, join_from, trim_end_char, trim_trailing_slashes, without_first_line};

verus! {

/// Named result of `parse_dockerfile::parse`, reduced to what the service reads:
/// `None` when the text does not parse; else one entry per instruction, `None`
/// for an instruction other than `COPY`, and for a `COPY` its sources, each the
/// source's path text or `None` for a here-document.
pub uninterp spec fn parsed_copy_sources(text: Seq<char>) -> Option<
    Seq<Option<Seq<Option<Seq<char>>>>>,
>;

/// Calls `parse_dockerfile::parse` on `text`. Claimed: the result, reduced as
/// [`parsed_copy_sources`] describes, is a function of the text alone; nothing
/// is stated of which texts parse or of what the parser finds in them.
#[verifier::external_body]
fn parse_copy_sources(text: &str) -> (res: Option<Vec<Option<Vec<Option<String>>>>>)
    ensures
        res.deep_view() == parsed_copy_sources(text@),
{
    let parsed = parse_dockerfile::parse(text).ok()?;
    let path = |src: Source| match src {
        Source::Path(p) => Some(p.value.into_owned()),
        _ => None,
    };
    let copy = |inst: Instruction| match inst {
        Instruction::Copy(c) => Some(c.src.into_iter().map(path).collect()),
        _ => None,
    };
    Some(parsed.instructions.into_iter().map(copy).collect())
}

/// Named result of gzip compression with `flate2`'s default level and header.
pub uninterp spec fn gzip_compressed(data: Seq<u8>) -> Seq<u8>;

/// Compresses `data` with `flate2::write::GzEncoder` at the default level.
/// Claimed: the result is `gzip_compressed(data@)`, a function of the bytes
/// alone (the encoder writes a fixed header: no time stamp, a fixed system
/// byte), and it starts with the gzip magic bytes `1f 8b`, which the encoder
/// always writes first. Nothing more is stated of the compressed stream.
#[verifier::external_body]
fn gzip(data: &[u8]) -> (res: Vec<u8>)
    ensures
        res@ == gzip_compressed(data@),
        res@.len() >= 2,
        res@[0] == 0x1f,
        res@[1] == 0x8b,
{
    let mut encoder = flate2::write::GzEncoder::new(Vec::new(), flate2::Compression::default());
    encoder.write_all(data).unwrap();
    encoder.finish().unwrap()
}

/// The build context archive as sent to the image builder: the tar bytes,
/// gzip-compressed.
pub fn compress_context(archive: &Vec<u8>) -> (res: Vec<u8>)
    ensures
        res@ == gzip_compressed(archive@),
        res@.len() >= 2 && res@[0] == 0x1f && res@[1] == 0x8b,
{
    gzip(archive.as_slice())
}

/// The path texts of the `COPY` sources, in order, from a reduced parse.
pub open spec fn copy_paths(parsed: Seq<Option<Seq<Option<Seq<char>>>>>) -> Seq<Seq<char>>
    decreases parsed.len(),
{
    if parsed.len() == 0 {
        Seq::empty()
    } else {
        copy_paths(parsed.drop_last()) + match parsed.last() {
            Some(srcs) => source_paths(srcs),
            None => Seq::empty(),
        }
    }
}

/// The path texts among the sources of one `COPY`, in order.
pub open spec fn source_paths(srcs: Seq<Option<Seq<char>>>) -> Seq<Seq<char>>
    decreases srcs.len(),
{
    if srcs.len() == 0 {
        Seq::empty()
    } else {
        source_paths(srcs.drop_last()) + match srcs.last() {
            Some(p) => seq![p],
            None => Seq::empty(),
        }
    }
}

/// The path sources of one `COPY` are all kept, in order: they are its
/// sources given as paths, here-documents left out.
pub proof fn lemma_source_paths_keep_every_path(srcs: Seq<Option<Seq<char>>>)
    ensures
        source_paths(srcs) == srcs.filter(|o: Option<Seq<char>>| o is Some).map_values(
            |o: Option<Seq<char>>| o->0,
        ),
    decreases srcs.len(),
{
    let pred = |o: Option<Seq<char>>| o is Some;
    let get = |o: Option<Seq<char>>| o->0;
    reveal(Seq::filter);
    if srcs.len() == 0 {
        assert(srcs.filter(pred) =~= Seq::<Option<Seq<char>>>::empty());
        assert(srcs.filter(pred).map_values(get) =~= Seq::<Seq<char>>::empty());
    } else {
        lemma_source_paths_keep_every_path(srcs.drop_last());
        let sub = srcs.drop_last().filter(pred);
        if pred(srcs.last()) {
            assert(srcs.filter(pred) == sub.push(srcs.last()));
            assert(sub.push(srcs.last()).map_values(get) =~= sub.map_values(get).push(srcs.last()->0));
            assert(source_paths(srcs) =~= sub.map_values(get).push(srcs.last()->0));
        } else {
            assert(srcs.filter(pred) == sub);
            assert(source_paths(srcs) =~= sub.map_values(get));
        }
    }
}

/// Every path source of every `COPY` is among the collected sources.
pub proof fn lemma_copy_paths_contain_every_path(
    parsed: Seq<Option<Seq<Option<Seq<char>>>>>,
    i: int,
    j: int,
)
    requires
        0 <= i < parsed.len(),
        parsed[i] is Some,
        0 <= j < parsed[i]->0.len(),
        parsed[i]->0[j] is Some,
    ensures
        copy_paths(parsed).contains(parsed[i]->0[j]->0),
    decreases parsed.len(),
{
    let srcs = parsed[i]->0;
    if i == parsed.len() - 1 {
        lemma_source_paths_keep_every_path(srcs);
        let pred = |o: Option<Seq<char>>| o is Some;
        srcs.lemma_filter_contains(pred, j);
        let k = choose|k: int| 0 <= k < srcs.filter(pred).len() && srcs.filter(pred)[k] == srcs[j];
        let res = copy_paths(parsed);
        let head = copy_paths(parsed.drop_last());
        assert(res == head + source_paths(srcs));
        assert(res[head.len() + k] == srcs[j]->0);
    } else {
        assert(parsed.drop_last()[i] == parsed[i]);
        lemma_copy_paths_contain_every_path(parsed.drop_last(), i, j);
        let head = copy_paths(parsed.drop_last());
        let k = choose|k: int| 0 <= k < head.len() && head[k] == srcs[j]->0;
        let res = copy_paths(parsed);
        assert(res[k] == head[k]);
    }
}

/// The sources of a Dockerfile are the sources of its parts in order: a `COPY`
/// gives its path sources, any other instruction none.
pub proof fn lemma_copy_paths_append(
    a: Seq<Option<Seq<Option<Seq<char>>>>>,
    b: Seq<Option<Seq<Option<Seq<char>>>>>,
)
    ensures
        copy_paths(a + b) == copy_paths(a) + copy_paths(b),
        copy_paths(seq![None]) == Seq::<Seq<char>>::empty(),
        forall|srcs: Seq<Option<Seq<char>>>| #[trigger] copy_paths(seq![Some(srcs)]) == source_paths(srcs),
    decreases b.len(),
{
    if b.len() == 0 {
        assert(a + b =~= a);
    } else {
        lemma_copy_paths_append(a, b.drop_last());
        assert((a + b).drop_last() =~= a + b.drop_last());
    }
    let none: Seq<Option<Seq<Option<Seq<char>>>>> = seq![None];
    assert(none.drop_last() =~= Seq::<Option<Seq<Option<Seq<char>>>>>::empty());
    assert(copy_paths(none.drop_last()) == Seq::<Seq<char>>::empty());
    assert(none.last() is None);
    assert(copy_paths(none) =~= Seq::<Seq<char>>::empty());
    assert forall|srcs: Seq<Option<Seq<char>>>| #[trigger] copy_paths(seq![Some(srcs)]) == source_paths(srcs) by {
        let one: Seq<Option<Seq<Option<Seq<char>>>>> = seq![Some(srcs)];
        assert(one.drop_last() =~= Seq::<Option<Seq<Option<Seq<char>>>>>::empty());
        assert(copy_paths(one.drop_last()) == Seq::<Seq<char>>::empty());
        assert(one.last() == Some(srcs));
        assert(copy_paths(one) =~= source_paths(srcs));
    }
}

/// The sources that the `COPY` instructions of a Dockerfile name by path, in
/// order; `None` when the text does not parse as a Dockerfile.
pub fn copy_sources(dockerfile: &str) -> (res: Option<Vec<String>>)
    ensures
        match parsed_copy_sources(dockerfile@) {
            Some(parsed) => res is Some && res->0.deep_view() == copy_paths(parsed),
            None => res is None,
        },
        parsed_copy_sources(dockerfile@) is Some ==> forall|i: int, j: int|
            0 <= i < parsed_copy_sources(dockerfile@)->0.len()
                && parsed_copy_sources(dockerfile@)->0[i] is Some
                && 0 <= j < parsed_copy_sources(dockerfile@)->0[i]->0.len()
                && #[trigger] parsed_copy_sources(dockerfile@)->0[i]->0[j] is Some
                ==> res->0.deep_view().contains(parsed_copy_sources(dockerfile@)->0[i]->0[j]->0),
{
    let parsed = match parse_copy_sources(dockerfile) {
        Some(p) => p,
        None => return None,
    };
    let ghost pv = parsed.deep_view();
    let mut out: Vec<String> = Vec::new();
    let mut i: usize = 0;
    let mut parsed = parsed;
    let n = parsed.len();
    assert(pv.take(0) =~= Seq::<Option<Seq<Option<Seq<char>>>>>::empty());
    while i < n
        invariant
            i <= n,
            n == parsed.len(),
            parsed.deep_view() == pv,
            out.deep_view() == copy_paths(pv.take(i as int)),
        decreases n - i,
    {
        assert(pv.take(i + 1).drop_last() =~= pv.take(i as int));
        match &parsed[i] {
            Some(srcs) => {
                let ghost sv = srcs.deep_view();
                let mut j: usize = 0;
                let ghost start = out.deep_view();
                assert(sv.take(0) =~= Seq::<Option<Seq<char>>>::empty());
                assert(start + source_paths(sv.take(0)) =~= start);
                while j < srcs.len()
                    invariant
                        j <= srcs.len(),
                        sv == srcs.deep_view(),
                        out.deep_view() == start + source_paths(sv.take(j as int)),
                    decreases srcs.len() - j,
                {
                    assert(sv.take(j + 1).drop_last() =~= sv.take(j as int));
                    let ghost prev = out.deep_view();
                    match &srcs[j] {
                        Some(p) => {
                            out.push(p.clone());
                            assert(out.deep_view() =~= prev.push(p@));
                            assert(out.deep_view() =~= start + source_paths(sv.take(j + 1)));
                        },
                        None => {
                            assert(out.deep_view() =~= start + source_paths(sv.take(j + 1)));
                        },
                    }
                    j = j + 1;
                }
                assert(sv.take(srcs.len() as int) =~= sv);
                assert(out.deep_view() =~= copy_paths(pv.take(i + 1)));
            },
            None => {
                assert(out.deep_view() =~= copy_paths(pv.take(i + 1)));
            },
        }
        i = i + 1;
    }
    assert(pv.take(n as int) =~= pv);
    proof {
        assert forall|i: int, j: int|
            0 <= i < pv.len() && pv[i] is Some && 0 <= j < pv[i]->0.len()
                && #[trigger] pv[i]->0[j] is Some implies out.deep_view().contains(pv[i]->0[j]->0) by {
            lemma_copy_paths_contain_every_path(pv, i, j);
        }
    }
    Some(out)
}

/// The start of every generated Dockerfile: `FROM {image}` and, on the next
/// line, the feature lines joined by newlines.
pub open spec fn base_image_spec(image: Seq<char>, features: Option<Seq<Seq<char>>>) -> Seq<char> {
    "FROM "@ + image + "\n"@ + match features {
        Some(f) => join(f, "\n"@),
        None => Seq::empty(),
    }
}

/// A generated Dockerfile starts with `FROM`, the whole image reference and a
/// newline, and goes on with the feature lines joined by newlines.
pub proof fn lemma_base_image_layout(image: Seq<char>, features: Option<Seq<Seq<char>>>)
    ensures
        ({
            let r = base_image_spec(image, features);
            let n = (6 + image.len()) as int;
            &&& r.len() >= n
            &&& r.subrange(0, n) == "FROM "@ + image + "\n"@
            &&& r.subrange(n, r.len() as int) == match features {
                Some(f) => join(f, "\n"@),
                None => Seq::<char>::empty(),
            }
        }),
{
    reveal_strlit("FROM ");
    reveal_strlit("\n");
    let r = base_image_spec(image, features);
    let head = "FROM "@ + image + "\n"@;
    let tail = match features {
        Some(f) => join(f, "\n"@),
        None => Seq::<char>::empty(),
    };
    assert(r == head + tail);
    assert(head.len() == 6 + image.len());
    assert(r.subrange(0, head.len() as int) =~= head);
    assert(r.subrange(head.len() as int, r.len() as int) =~= tail);
}

/// `FROM {image}` followed by the feature lines, as the service starts every Dockerfile.
pub fn base_image(image: &str, features: Option<&Vec<String>>) -> (res: String)
    ensures
        res@ == base_image_spec(image@, features.deep_view()),
        res@.len() >= 6 + image@.len(),
        res@.subrange(0, (6 + image@.len()) as int) == "FROM "@ + image@ + "\n"@,
{
    proof {
        lemma_base_image_layout(image@, features.deep_view());
    }
    let mut s = String::from_str("FROM ");
    s.append(image);
    s.append("\n");
    match features {
        Some(f) => {
            let joined = join_from(f, 0, "\n");
            assert(f.deep_view().skip(0) =~= f.deep_view());
            s.append(joined.as_str());
        },
        None => {
            assert(s@ + Seq::<char>::empty() =~= s@);
        },
    }
    s
}

/// Whether a path is absolute on Unix: it starts at the root `/`.
pub open spec fn is_absolute(path: Seq<char>) -> bool {
    path.len() > 0 && path[0] == '/'
}

/// Whether `path` is absolute on Unix.
pub fn starts_at_root(path: &str) -> (res: bool)
    ensures
        res == is_absolute(path@),
{
    path.unicode_len() > 0 && path.get_char(0) == '/'
}

/// Where the Dockerfile of a build lives: under an absolute context, in it;
/// under a relative one (default `.`), beside the devbox directory `dev_path`.
pub open spec fn dockerfile_path_spec(
    context: Option<Seq<char>>,
    dockerfile: Seq<char>,
    dev_path: Seq<char>,
) -> Seq<char> {
    let ctx = match context {
        Some(c) => c,
        None => "."@,
    };
    if is_absolute(ctx) {
        trim_end_char(ctx, '/') + "/"@ + dockerfile
    } else {
        trim_end_char(dev_path, '/') + "/../"@ + trim_end_char(ctx, '/') + "/"@ + dockerfile
    }
}

/// The Dockerfile path ends with `/` and the build's Dockerfile name in full,
/// and starts with the absolute context, or else with the devbox directory
/// and `/../`.
pub proof fn lemma_dockerfile_path_layout(
    context: Option<Seq<char>>,
    dockerfile: Seq<char>,
    dev_path: Seq<char>,
)
    ensures
        ({
            let r = dockerfile_path_spec(context, dockerfile, dev_path);
            let ctx = match context {
                Some(c) => c,
                None => "."@,
            };
            &&& r.len() >= dockerfile.len() + 1
            &&& r.subrange(r.len() - dockerfile.len() - 1, r.len() as int) == "/"@ + dockerfile
            &&& is_absolute(ctx) ==> r.subrange(0, trim_end_char(ctx, '/').len() as int)
                == trim_end_char(ctx, '/')
            &&& !is_absolute(ctx) ==> r.subrange(0, (trim_end_char(dev_path, '/').len() + 4) as int)
                == trim_end_char(dev_path, '/') + "/../"@
        }),
{
    reveal_strlit("/");
    reveal_strlit("/../");
    let r = dockerfile_path_spec(context, dockerfile, dev_path);
    let ctx = match context {
        Some(c) => c,
        None => "."@,
    };
    let tail = "/"@ + dockerfile;
    if is_absolute(ctx) {
        let head = trim_end_char(ctx, '/');
        assert(r == head + tail);
        assert(r.subrange(r.len() - dockerfile.len() - 1, r.len() as int) =~= tail);
        assert(r.subrange(0, head.len() as int) =~= head);
    } else {
        let head = trim_end_char(dev_path, '/') + "/../"@;
        let mid = trim_end_char(ctx, '/');
        assert(r == head + mid + tail);
        assert(r.subrange(r.len() - dockerfile.len() - 1, r.len() as int) =~= tail);
        assert(r.subrange(0, head.len() as int) =~= head);
    }
}

/// The path of the Dockerfile that `build` names, for a devbox in `dev_path`.
pub fn dockerfile_path(build: &Build, dev_path: &str) -> (res: String)
    ensures
        res@ == dockerfile_path_spec(build.context.deep_view(), build.dockerfile@, dev_path@),
        res@.len() >= build.dockerfile@.len() + 1,
        res@.subrange(res@.len() - build.dockerfile@.len() - 1, res@.len() as int) == "/"@
            + build.dockerfile@,
{
    proof {
        lemma_dockerfile_path_layout(build.context.deep_view(), build.dockerfile@, dev_path@);
    }
    let dot = String::from_str(".");
    let context = match &build.context {
        Some(c) => c,
        None => &dot,
    };
    let ctx = trim_trailing_slashes(context.as_str());
    if starts_at_root(context.as_str()) {
        let mut s = ctx;
        s.append("/");
        s.append(build.dockerfile.as_str());
        s
    } else {
        let mut s = trim_trailing_slashes(dev_path);
        s.append("/../");
        s.append(ctx.as_str());
        s.append("/");
        s.append(build.dockerfile.as_str());
        s
    }
}

/// A Dockerfile built on a project's own: the generated start, then the
/// project's Dockerfile without its first (`FROM`) line.
pub fn compose_dockerfile(base: &str, project: &str) -> (res: String)
    ensures
        res@ == base@ + "\n"@ + after_first_line(project@),
{
    let mut s = String::from_str(base);
    s.append("\n");
    let rest = without_first_line(project);
    s.append(rest.as_str());
    s
}

/// Named result of `std::path::Path::parent`, as text: the path without its
/// last component, `None` for a root or empty path.
pub uninterp spec fn path_parent(path: Seq<char>) -> Option<Seq<char>>;

/// Calls `Path::parent` on `path`. Claimed: the result, as text, is
/// `path_parent(path@)`, a function of the text alone; nothing more is stated.
#[verifier::external_body]
fn parent_of(path: &str) -> (res: Option<String>)
    ensures
        res.deep_view() == path_parent(path@),
{
    std::path::Path::new(path).parent().map(|p| p.display().to_string())
}

/// Where a `COPY` source is looked for: an absolute source as is, a relative
/// one in the directory of the Dockerfile. `None` when the Dockerfile path has
/// no parent.
pub fn resolve_source(source: &str, dockerfile: &str) -> (res: Option<String>)
    ensures
        is_absolute(source@) ==> res is Some && res->0@ == source@,
        !is_absolute(source@) ==> match path_parent(dockerfile@) {
            Some(dir) => res is Some && res->0@ == dir + "/"@ + source@,
            None => res is None,
        },
{
    if starts_at_root(source) {
        Some(String::from_str(source))
    } else {
        match parent_of(dockerfile) {
            Some(dir) => {
                let mut s = dir;
                s.append("/");
                s.append(source);
                Some(s)
            },
            None => None,
        }
    }
}

} // verus!
