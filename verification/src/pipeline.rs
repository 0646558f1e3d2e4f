//! Decision logic of the job pipeline stages: which indexed files are
//! kept by the filters, how the output directories are prepared and
//! rotated, where each file is copied, and how the verification stage
//! judges its observations.

use vstd::prelude::*;
use vstd::string::StrSliceExecFns;
use vstd::string::StringExecFns;
use crate::jobs::{FileFilter, FileFilterView, InputFile};
use crate::strings::{
    dec_str, extension_of, lower_seq, seq_contains_char, str_contains_char, str_eq,
    str_eq_ignore_ascii_case, str_starts_with, str_suffix_after_last, suffix_after_last,
    u32_to_string,
};

verus! {

/// One file found while indexing: its path and what the filesystem
/// reported about it (`None` where the query failed, which excludes the
/// file from size- and age-filtered sets).
pub struct FileRecord {
    pub path: String,
    pub size: Option<u64>,
    pub last_access: Option<u64>,
}

/// Mathematical view of a [`FileRecord`].
pub struct FileRecordView {
    pub path: Seq<char>,
    pub size: Option<u64>,
    pub last_access: Option<u64>,
}

impl View for FileRecord {
    type V = FileRecordView;

    open spec fn view(&self) -> FileRecordView {
        FileRecordView { path: self.path@, size: self.size, last_access: self.last_access }
    }
}

impl DeepView for FileRecord {
    type V = FileRecordView;

    open spec fn deep_view(&self) -> FileRecordView {
        self.view()
    }
}

impl Clone for FileRecord {
    fn clone(&self) -> (res: Self)
        ensures
            res@ == self@,
    {
        FileRecord { path: self.path.clone(), size: self.size, last_access: self.last_access }
    }
}

/// The fixed extension set a category shortcut stands for; empty for an
/// entry that is no shortcut.
pub open spec fn expansion_of(entry: Seq<char>) -> Seq<Seq<char>> {
    if entry == "documents-category"@ {
        seq![
            "doc"@, "docx"@, "pdf"@, "txt"@, "odt"@, "rtf"@, "md"@, "epub"@, "pptx"@, "xls"@,
            "xlsx"@,
        ]
    } else if entry == "videos-category"@ {
        seq!["mp4"@, "mkv"@, "avi"@, "mov"@, "wmv"@, "flv"@, "webm"@, "mpeg"@]
    } else if entry == "pictures-category"@ {
        seq!["jpg"@, "jpeg"@, "png"@, "gif"@, "bmp"@, "tiff"@, "webp"@, "svg"@]
    } else if entry == "music-category"@ {
        seq!["mp3"@, "wav"@, "flac"@, "aac"@, "ogg"@, "m4a"@, "wma"@]
    } else if entry == "archives-category"@ {
        seq!["zip"@, "rar"@, "tar"@, "gz"@, "7z"@, "bz2"@, "xz"@]
    } else {
        Seq::empty()
    }
}

/// The concatenation of the expansions of every entry, in order.
pub open spec fn expansions(entries: Seq<Seq<char>>) -> Seq<Seq<char>>
    decreases entries.len(),
{
    if entries.len() == 0 {
        Seq::empty()
    } else {
        expansions(entries.drop_last()) + expansion_of(entries.last())
    }
}

/// An extension allowlist after its category shortcuts are expanded:
/// the kept literal entries followed by every shortcut's extension set.
pub open spec fn expanded_list(entries: Seq<Seq<char>>) -> Seq<Seq<char>> {
    entries + expansions(entries)
}

fn push_str(out: &mut Vec<String>, s: &str)
    ensures
        final(out).deep_view() == old(out).deep_view().push(s@),
{
    out.push(s.to_owned());
    assert(final(out).deep_view() =~= old(out).deep_view().push(s@));
}

/// Expands the category shortcuts of an extension allowlist, keeping
/// the literal entries (the shortcut entries themselves stay listed;
/// they match no real extension).
#[verifier::rlimit(60)]
pub fn expand_extensions(entries: &Vec<String>) -> (r: Vec<String>)
    ensures
        r.deep_view() == expanded_list(entries.deep_view()),
{
    let mut r = entries.clone();
    proof {
        assert(r.deep_view() =~= entries.deep_view());
    }
    let mut i: usize = 0;
    while i < entries.len()
        invariant
            i <= entries.len(),
            r.deep_view() == entries.deep_view() + expansions(entries.deep_view().take(i as int)),
        decreases entries.len() - i,
    {
        let ghost prev = r.deep_view();
        let entry: &String = &entries[i];
        if str_eq(entry.as_str(), "documents-category") {
            push_str(&mut r, "doc");
            push_str(&mut r, "docx");
            push_str(&mut r, "pdf");
            push_str(&mut r, "txt");
            push_str(&mut r, "odt");
            push_str(&mut r, "rtf");
            push_str(&mut r, "md");
            push_str(&mut r, "epub");
            push_str(&mut r, "pptx");
            push_str(&mut r, "xls");
            push_str(&mut r, "xlsx");
        } else if str_eq(entry.as_str(), "videos-category") {
            push_str(&mut r, "mp4");
            push_str(&mut r, "mkv");
            push_str(&mut r, "avi");
            push_str(&mut r, "mov");
            push_str(&mut r, "wmv");
            push_str(&mut r, "flv");
            push_str(&mut r, "webm");
            push_str(&mut r, "mpeg");
        } else if str_eq(entry.as_str(), "pictures-category") {
            push_str(&mut r, "jpg");
            push_str(&mut r, "jpeg");
            push_str(&mut r, "png");
            push_str(&mut r, "gif");
            push_str(&mut r, "bmp");
            push_str(&mut r, "tiff");
            push_str(&mut r, "webp");
            push_str(&mut r, "svg");
        } else if str_eq(entry.as_str(), "music-category") {
            push_str(&mut r, "mp3");
            push_str(&mut r, "wav");
            push_str(&mut r, "flac");
            push_str(&mut r, "aac");
            push_str(&mut r, "ogg");
            push_str(&mut r, "m4a");
            push_str(&mut r, "wma");
        } else if str_eq(entry.as_str(), "archives-category") {
            push_str(&mut r, "zip");
            push_str(&mut r, "rar");
            push_str(&mut r, "tar");
            push_str(&mut r, "gz");
            push_str(&mut r, "7z");
            push_str(&mut r, "bz2");
            push_str(&mut r, "xz");
        }
        proof {
            let entriesv = entries.deep_view();
            assert(entriesv.take(i + 1).drop_last() =~= entriesv.take(i as int));
            assert(entriesv.take(i + 1).last() == entriesv[i as int]);
            assert(r.deep_view() =~= prev + expansion_of(entriesv[i as int]));
        }
        i += 1;
    }
    proof {
        assert(entries.deep_view().take(entries.deep_view().len() as int) =~= entries.deep_view());
    }
    r
}

/// True when an extension matches some allowlist entry, comparing
/// without regard to ASCII case.
pub open spec fn ext_allowed(allowed: Seq<Seq<char>>, ext: Seq<char>) -> bool {
    exists|i: int| 0 <= i < allowed.len() && lower_seq(allowed[i]) == lower_seq(ext)
}

/// Whether `ext` matches some entry of `allowed`, case-insensitively.
pub fn ext_allowed_exec(allowed: &Vec<String>, ext: &str) -> (r: bool)
    ensures
        r == ext_allowed(allowed.deep_view(), ext@),
{
    let mut i: usize = 0;
    while i < allowed.len()
        invariant
            i <= allowed.len(),
            forall|j: int| 0 <= j < i ==> lower_seq(allowed.deep_view()[j]) != lower_seq(ext@),
        decreases allowed.len() - i,
    {
        if str_eq_ignore_ascii_case(allowed[i].as_str(), ext) {
            assert(lower_seq(allowed.deep_view()[i as int]) == lower_seq(ext@));
            return true;
        }
        i += 1;
    }
    false
}

/// Seconds in each recognized age-filter period; an unknown label maps
/// to a bound no file age reaches, so such a filter keeps nothing.
pub open spec fn period_seconds(p: Seq<char>) -> int {
    if p == "week"@ {
        604800
    } else if p == "2weeks"@ {
        1209600
    } else if p == "month"@ {
        2592000
    } else if p == "2months"@ {
        5184000
    } else if p == "3months"@ {
        7776000
    } else if p == "6months"@ {
        15552000
    } else if p == "year"@ {
        31536000
    } else {
        999999999999999
    }
}

/// Whether a timestamp lies strictly further in the past than the given
/// period, measured from `now` (both in seconds since the epoch).
pub fn check_older_than(now: u64, time: u64, period: &str) -> (r: bool)
    ensures
        r == (now as int > time as int + period_seconds(period@)),
{
    let secs: u64 = if str_eq(period, "week") {
        604800
    } else if str_eq(period, "2weeks") {
        1209600
    } else if str_eq(period, "month") {
        2592000
    } else if str_eq(period, "2months") {
        5184000
    } else if str_eq(period, "3months") {
        7776000
    } else if str_eq(period, "6months") {
        15552000
    } else if str_eq(period, "year") {
        31536000
    } else {
        999999999999999
    };
    (now as u128) > (time as u128) + (secs as u128)
}

/// A filter is well formed when the parameters its kind reads are
/// present.
pub open spec fn wf_filter(f: FileFilterView) -> bool {
    &&& f.filter_type == "extension"@ ==> f.traits.extensions is Some
    &&& f.filter_type == "size"@ ==> f.traits.size is Some
    &&& f.filter_type == "last-used"@ ==> f.traits.period is Some
}

/// Whether one filter keeps a file.  A filter of an unrecognized kind
/// restricts nothing.
pub open spec fn passes_filter(f: FileFilterView, rec: FileRecordView, now: u64) -> bool {
    if f.filter_type == "extension"@ {
        ext_allowed(expanded_list(f.traits.extensions->Some_0), extension_of(rec.path))
    } else if f.filter_type == "size"@ {
        rec.size is Some && rec.size->Some_0 / 1000 / 1000 >= f.traits.size->Some_0
    } else if f.filter_type == "last-used"@ {
        rec.last_access is Some && now as int > rec.last_access->Some_0 as int + period_seconds(
            f.traits.period->Some_0,
        )
    } else {
        true
    }
}

/// Whether a file passes every filter of the list.
pub open spec fn keeps_file(filters: Seq<FileFilterView>, rec: FileRecordView, now: u64) -> bool {
    forall|i: int| 0 <= i < filters.len() ==> passes_filter(filters[i], rec, now)
}

fn passes_filter_exec(f: &FileFilter, expanded: &Vec<String>, rec: &FileRecord, now: u64) -> (r:
    bool)
    requires
        wf_filter(f@),
        f@.filter_type == "extension"@ ==> expanded.deep_view() == expanded_list(
            f@.traits.extensions->Some_0,
        ),
    ensures
        r == passes_filter(f@, rec@, now),
{
    if str_eq(f.filter_type.as_str(), "extension") {
        let ext = str_suffix_after_last(rec.path.as_str(), '.');
        ext_allowed_exec(expanded, ext.as_str())
    } else if str_eq(f.filter_type.as_str(), "size") {
        let threshold = match f.traits.size {
            Option::Some(t) => t,
            Option::None => {
                return false;
            },
        };
        match rec.size {
            Option::Some(s) => s / 1000 / 1000 >= threshold,
            Option::None => false,
        }
    } else if str_eq(f.filter_type.as_str(), "last-used") {
        let period = match &f.traits.period {
            Option::Some(p) => p,
            Option::None => {
                return false;
            },
        };
        match rec.last_access {
            Option::Some(t) => check_older_than(now, t, period.as_str()),
            Option::None => false,
        }
    } else {
        true
    }
}

/// Every filter of the list is well formed.
pub open spec fn wf_filters(filters: Seq<FileFilterView>) -> bool {
    forall|i: int| 0 <= i < filters.len() ==> wf_filter(#[trigger] filters[i])
}

/// Applies the job's filters to the indexed files, in definition order:
/// a file is kept exactly when it passes every filter.  `now` is the
/// current time in seconds since the epoch, used by age filters.
pub fn filter_files(files: &Vec<FileRecord>, filters: &Vec<FileFilter>, now: u64) -> (r: Vec<
    FileRecord,
>)
    requires
        wf_filters(filters.deep_view()),
    ensures
        r.deep_view() == files.deep_view().filter(
            |rec: FileRecordView| keeps_file(filters.deep_view(), rec, now),
        ),
{
    let ghost pred = |rec: FileRecordView| keeps_file(filters.deep_view(), rec, now);
    // Expand each extension filter's allowlist once, up front.
    let mut expanded_lists: Vec<Vec<String>> = Vec::new();
    let mut j: usize = 0;
    while j < filters.len()
        invariant
            j <= filters.len(),
            expanded_lists.len() == j,
            wf_filters(filters.deep_view()),
            forall|k: int|
                0 <= k < j && filters.deep_view()[k].filter_type == "extension"@
                    ==> expanded_lists.deep_view()[k] == expanded_list(
                    filters.deep_view()[k].traits.extensions->Some_0,
                ),
        decreases filters.len() - j,
    {
        let ghost prev = expanded_lists.deep_view();
        proof {
            assert(filters.deep_view()[j as int] == filters[j as int]@);
            assert(wf_filter(filters.deep_view()[j as int]));
        }
        let is_ext = str_eq(filters[j].filter_type.as_str(), "extension");
        let entries: Vec<String> = if is_ext {
            match &filters[j].traits.extensions {
                Option::Some(e) => expand_extensions(e),
                Option::None => Vec::new(),
            }
        } else {
            Vec::new()
        };
        let ghost ev = entries.deep_view();
        proof {
            if filters.deep_view()[j as int].filter_type == "extension"@ {
                assert(ev == expanded_list(
                    filters.deep_view()[j as int].traits.extensions->Some_0,
                ));
            }
        }
        expanded_lists.push(entries);
        proof {
            assert(expanded_lists.deep_view() =~= prev.push(ev));
        }
        j += 1;
    }
    let mut r: Vec<FileRecord> = Vec::new();
    let mut i: usize = 0;
    while i < files.len()
        invariant
            i <= files.len(),
            pred == (|rec: FileRecordView| keeps_file(filters.deep_view(), rec, now)),
            wf_filters(filters.deep_view()),
            expanded_lists.len() == filters.len(),
            forall|k: int|
                0 <= k < filters.len() && filters.deep_view()[k].filter_type == "extension"@
                    ==> expanded_lists.deep_view()[k] == expanded_list(
                    filters.deep_view()[k].traits.extensions->Some_0,
                ),
            r.deep_view() == files.deep_view().take(i as int).filter(pred),
        decreases files.len() - i,
    {
        let mut keep = true;
        let mut j: usize = 0;
        while j < filters.len()
            invariant
                j <= filters.len(),
                i < files.len(),
                wf_filters(filters.deep_view()),
                expanded_lists.len() == filters.len(),
                forall|k: int|
                    0 <= k < filters.len() && filters.deep_view()[k].filter_type == "extension"@
                        ==> expanded_lists.deep_view()[k] == expanded_list(
                        filters.deep_view()[k].traits.extensions->Some_0,
                    ),
                keep == forall|k: int|
                    0 <= k < j ==> passes_filter(
                        filters.deep_view()[k],
                        files.deep_view()[i as int],
                        now,
                    ),
            decreases filters.len() - j,
        {
            proof {
                assert(filters.deep_view()[j as int] == filters[j as int]@);
                assert(wf_filter(filters.deep_view()[j as int]));
                assert(expanded_lists.deep_view()[j as int] == expanded_lists[j as int].deep_view());
                assert(files.deep_view()[i as int] == files[i as int]@);
            }
            if keep {
                let p = passes_filter_exec(&filters[j], &expanded_lists[j], &files[i], now);
                keep = keep && p;
            } else {
                keep = false;
            }
            j += 1;
        }
        let ghost prev = r.deep_view();
        if keep {
            r.push(files[i].clone());
            proof {
                assert(r.deep_view() =~= prev.push(files.deep_view()[i as int]));
            }
        }
        proof {
            reveal(Seq::filter);
            let filesv = files.deep_view();
            assert(filesv.take(i + 1).drop_last() =~= filesv.take(i as int));
            assert(filesv.take(i + 1).last() == filesv[i as int]);
            assert(keep == pred(filesv[i as int]));
        }
        i += 1;
    }
    proof {
        assert(files.deep_view().take(files.deep_view().len() as int) =~= files.deep_view());
    }
    r
}

/// The files left after applying each filter in turn, one pass per
/// filter, as a run with a checkpoint between filters applies them.
pub open spec fn sequential_filter(
    files: Seq<FileRecordView>,
    filters: Seq<FileFilterView>,
    now: u64,
) -> Seq<FileRecordView>
    decreases filters.len(),
{
    if filters.len() == 0 {
        files
    } else {
        sequential_filter(
            files.filter(|r: FileRecordView| passes_filter(filters[0], r, now)),
            filters.drop_first(),
            now,
        )
    }
}

proof fn lemma_filter_congruence(
    s: Seq<FileRecordView>,
    p: spec_fn(FileRecordView) -> bool,
    q: spec_fn(FileRecordView) -> bool,
)
    requires
        forall|x: FileRecordView| #[trigger] p(x) == #[trigger] q(x),
    ensures
        s.filter(p) == s.filter(q),
    decreases s.len(),
{
    reveal(Seq::filter);
    if s.len() > 0 {
        lemma_filter_congruence(s.drop_last(), p, q);
    }
}

proof fn lemma_filter_all_true(s: Seq<FileRecordView>, p: spec_fn(FileRecordView) -> bool)
    requires
        forall|x: FileRecordView| #[trigger] p(x),
    ensures
        s.filter(p) == s,
    decreases s.len(),
{
    reveal(Seq::filter);
    if s.len() > 0 {
        lemma_filter_all_true(s.drop_last(), p);
        assert(s.filter(p) =~= s);
    }
}

proof fn lemma_filter_filter(
    s: Seq<FileRecordView>,
    p: spec_fn(FileRecordView) -> bool,
    q: spec_fn(FileRecordView) -> bool,
)
    ensures
        s.filter(p).filter(q) == s.filter(|x: FileRecordView| p(x) && q(x)),
    decreases s.len(),
{
    reveal(Seq::filter);
    if s.len() > 0 {
        lemma_filter_filter(s.drop_last(), p, q);
        let l = s.last();
        if p(l) {
            assert(s.filter(p) == s.drop_last().filter(p).push(l));
            assert(s.filter(p).drop_last() =~= s.drop_last().filter(p));
        }
        assert(s.filter(p).filter(q) =~= s.filter(|x: FileRecordView| p(x) && q(x)));
    }
}

/// Applying the job's filters one at a time, in definition order —
/// as the pipeline does between its pause/stop checkpoints — keeps
/// exactly the files that pass every filter at once.
pub proof fn lemma_filters_compose(
    files: Seq<FileRecordView>,
    filters: Seq<FileFilterView>,
    now: u64,
)
    ensures
        sequential_filter(files, filters, now) == files.filter(
            |r: FileRecordView| keeps_file(filters, r, now),
        ),
    decreases filters.len(),
{
    if filters.len() == 0 {
        lemma_filter_all_true(files, |r: FileRecordView| keeps_file(filters, r, now));
    } else {
        let p0 = |r: FileRecordView| passes_filter(filters[0], r, now);
        let rest = filters.drop_first();
        let keeps_rest = |r: FileRecordView| keeps_file(rest, r, now);
        lemma_filters_compose(files.filter(p0), rest, now);
        lemma_filter_filter(files, p0, keeps_rest);
        assert forall|x: FileRecordView| (#[trigger] p0(x) && keeps_rest(x)) == keeps_file(
            filters,
            x,
            now,
        ) by {
            if p0(x) && keeps_rest(x) {
                assert forall|i: int| 0 <= i < filters.len() implies passes_filter(
                    filters[i],
                    x,
                    now,
                ) by {
                    if i > 0 {
                        assert(keeps_rest(x));
                        assert(rest[i - 1] == filters[i]);
                        assert(passes_filter(rest[i - 1], x, now));
                    }
                }
            }
            if keeps_file(filters, x, now) {
                assert(passes_filter(filters[0], x, now));
                assert forall|i: int| 0 <= i < rest.len() implies passes_filter(
                    rest[i],
                    x,
                    now,
                ) by {
                    assert(rest[i] == filters[i + 1]);
                    assert(passes_filter(filters[i + 1], x, now));
                }
            }
        }
        lemma_filter_congruence(
            files,
            |x: FileRecordView| p0(x) && keeps_rest(x),
            |r: FileRecordView| keeps_file(filters, r, now),
        );
    }
}

/// The final segment of a path: the characters after the last
/// separator.  Backslash-separated paths are split at backslashes,
/// all others at slashes; a path with no separator is its own segment.
pub open spec fn last_segment(p: Seq<char>) -> Seq<char> {
    if seq_contains_char(p, '\\') {
        suffix_after_last(p, '\\')
    } else {
        suffix_after_last(p, '/')
    }
}

/// Joins a directory and a relative path with a slash, unless the
/// directory already ends in a separator.
pub open spec fn join_path(dir: Seq<char>, rel: Seq<char>) -> Seq<char> {
    if dir.len() > 0 && (dir.last() == '/' || dir.last() == '\\') {
        dir + rel
    } else {
        dir + seq!['/'] + rel
    }
}

/// Where a file indexed under the input root `root` lands when copied
/// into `out_dir`: the root's final segment is kept, the rest of the
/// root is stripped, and the remainder keeps its relative structure.
pub open spec fn dest_path(file: Seq<char>, root: Seq<char>, out_dir: Seq<char>) -> Seq<char> {
    join_path(out_dir, last_segment(root) + file.skip(root.len() as int))
}

/// The final segment of a path.
pub fn last_segment_exec(p: &str) -> (r: String)
    ensures
        r@ == last_segment(p@),
{
    if str_contains_char(p, '\\') {
        str_suffix_after_last(p, '\\')
    } else {
        str_suffix_after_last(p, '/')
    }
}

/// Computes the destination of one file under its matched input root.
pub fn compute_destination(file: &str, root: &str, out_dir: &str) -> (r: String)
    requires
        root@.is_prefix_of(file@),
    ensures
        r@ == dest_path(file@, root@, out_dir@),
{
    let n = out_dir.unicode_len();
    let mut r = out_dir.to_owned();
    if n == 0 {
        r.append("/");
        proof {
            reveal_strlit("/");
            assert(r@ =~= out_dir@ + seq!['/']);
        }
    } else {
        let c = out_dir.get_char(n - 1);
        if !(c == '/' || c == '\\') {
            r.append("/");
            proof {
                reveal_strlit("/");
                assert(r@ =~= out_dir@ + seq!['/']);
            }
        }
    }
    let seg = last_segment_exec(root);
    r.append(seg.as_str());
    let rl = root.unicode_len();
    let fl = file.unicode_len();
    let rest = file.substring_char(rl, fl);
    r.append(rest);
    proof {
        assert(file@.subrange(rl as int, fl as int) =~= file@.skip(rl as int));
        assert(r@ =~= dest_path(file@, root@, out_dir@));
    }
    r
}

/// The longest entry of `roots` that is a prefix of `f`; on equal
/// lengths the later entry wins, as a maximum scan from the front
/// leaves it.
pub open spec fn longest_prefix_root(roots: Seq<Seq<char>>, f: Seq<char>) -> Option<Seq<char>>
    decreases roots.len(),
{
    if roots.len() == 0 {
        Option::None
    } else {
        let prev = longest_prefix_root(roots.drop_last(), f);
        let cand = roots.last();
        if cand.is_prefix_of(f) {
            match prev {
                Option::None => Option::Some(cand),
                Option::Some(b) => if b.len() > cand.len() {
                    Option::Some(b)
                } else {
                    Option::Some(cand)
                },
            }
        } else {
            prev
        }
    }
}

/// Finds the index of the longest input root that is a prefix of
/// `file`.
pub fn find_longest_root(roots: &Vec<String>, file: &str) -> (r: Option<usize>)
    ensures
        (r is Some) == (longest_prefix_root(roots.deep_view(), file@) is Some),
        r is Some ==> r->Some_0 < roots.len() && roots.deep_view()[r->Some_0 as int]
            == longest_prefix_root(roots.deep_view(), file@)->Some_0,
{
    let mut best: Option<usize> = Option::None;
    let mut i: usize = 0;
    while i < roots.len()
        invariant
            i <= roots.len(),
            (best is Some) == (longest_prefix_root(roots.deep_view().take(i as int), file@)
                is Some),
            best is Some ==> best->Some_0 < i && roots.deep_view()[best->Some_0 as int]
                == longest_prefix_root(roots.deep_view().take(i as int), file@)->Some_0,
        decreases roots.len() - i,
    {
        proof {
            assert(roots.deep_view().take(i + 1).drop_last() =~= roots.deep_view().take(i as int));
            assert(roots.deep_view().take(i + 1).last() == roots.deep_view()[i as int]);
        }
        if str_starts_with(file, roots[i].as_str()) {
            match best {
                Option::Some(b) => {
                    if !(roots[b].as_str().unicode_len() > roots[i].as_str().unicode_len()) {
                        best = Option::Some(i);
                    }
                },
                Option::None => {
                    best = Option::Some(i);
                },
            }
        }
        i += 1;
    }
    proof {
        assert(roots.deep_view().take(roots.deep_view().len() as int) =~= roots.deep_view());
    }
    best
}

/// Maps each file to copy to its destination: the source path paired
/// with where it lands under `out_dir`, its longest matching input
/// root stripped down to that root's final segment.
pub fn plan_copies(files: &Vec<String>, roots: &Vec<String>, out_dir: &str) -> (r: Vec<
    (String, String),
>)
    requires
        forall|i: int|
            0 <= i < files.deep_view().len() ==> longest_prefix_root(
                roots.deep_view(),
                #[trigger] files.deep_view()[i],
            ) is Some,
    ensures
        r.deep_view().len() == files.deep_view().len(),
        forall|i: int|
            0 <= i < files.deep_view().len() ==> #[trigger] r.deep_view()[i] == (
                files.deep_view()[i],
                dest_path(
                    files.deep_view()[i],
                    longest_prefix_root(roots.deep_view(), files.deep_view()[i])->Some_0,
                    out_dir@,
                ),
            ),
{
    let mut r: Vec<(String, String)> = Vec::new();
    let mut i: usize = 0;
    while i < files.len()
        invariant
            i <= files.len(),
            r.deep_view().len() == i,
            forall|i0: int|
                0 <= i0 < files.deep_view().len() ==> longest_prefix_root(
                    roots.deep_view(),
                    #[trigger] files.deep_view()[i0],
                ) is Some,
            forall|i0: int|
                0 <= i0 < i ==> #[trigger] r.deep_view()[i0] == (
                    files.deep_view()[i0],
                    dest_path(
                        files.deep_view()[i0],
                        longest_prefix_root(roots.deep_view(), files.deep_view()[i0])->Some_0,
                        out_dir@,
                    ),
                ),
        decreases files.len() - i,
    {
        let file = &files[i];
        let idx = match find_longest_root(roots, file.as_str()) {
            Option::Some(idx) => idx,
            Option::None => {
                proof {
                    assert(longest_prefix_root(roots.deep_view(), files.deep_view()[i as int])
                        is Some);
                }
                unreached()
            },
        };
        proof {
            // the chosen root is a prefix of the file, as every
            // longest-prefix result is
            lemma_longest_prefix_is_prefix(roots.deep_view(), files.deep_view()[i as int]);
        }
        let dest = compute_destination(file.as_str(), roots[idx].as_str(), out_dir);
        let ghost prev = r.deep_view();
        r.push((file.clone(), dest));
        proof {
            assert(r.deep_view() =~= prev.push(
                (
                    files.deep_view()[i as int],
                    dest_path(
                        files.deep_view()[i as int],
                        longest_prefix_root(roots.deep_view(), files.deep_view()[i as int])->Some_0,
                        out_dir@,
                    ),
                ),
            ));
        }
        i += 1;
    }
    r
}

proof fn lemma_longest_prefix_is_prefix(roots: Seq<Seq<char>>, f: Seq<char>)
    ensures
        longest_prefix_root(roots, f) is Some ==> longest_prefix_root(
            roots,
            f,
        )->Some_0.is_prefix_of(f),
    decreases roots.len(),
{
    if roots.len() > 0 {
        lemma_longest_prefix_is_prefix(roots.drop_last(), f);
    }
}

/// The job-scoped output directory name derived from a job identity.
pub fn job_dir_name(uuid: &str) -> (r: String)
    ensures
        r@ == "archway-"@ + uuid@,
{
    let mut r = String::from_str("archway-");
    r.append(uuid);
    r
}

/// The name of a numbered retention slot of a job's output.
pub fn slot_dir_name(uuid: &str, slot: u32) -> (r: String)
    ensures
        r@ == "archway-"@ + uuid@ + "-"@ + dec_str(slot as nat),
{
    let mut r = String::from_str("archway-");
    r.append(uuid);
    r.append("-");
    let n = u32_to_string(slot);
    r.append(n.as_str());
    r
}

/// The lowest free retention slot: the first index holding `false`.
pub open spec fn first_free_slot(occupied: Seq<bool>) -> Option<int>
    decreases occupied.len(),
{
    if occupied.len() == 0 {
        Option::None
    } else if !occupied[0] {
        Option::Some(0)
    } else {
        match first_free_slot(occupied.drop_first()) {
            Option::None => Option::None,
            Option::Some(i) => Option::Some(i + 1),
        }
    }
}

proof fn lemma_first_free_slot(occupied: Seq<bool>, i: int)
    requires
        0 <= i <= occupied.len(),
        forall|j: int| 0 <= j < i ==> occupied[j],
        i < occupied.len() ==> !occupied[i],
    ensures
        first_free_slot(occupied) == if i < occupied.len() {
            Option::Some(i)
        } else {
            Option::<int>::None
        },
    decreases occupied.len(),
{
    if occupied.len() > 0 && i > 0 {
        lemma_first_free_slot(occupied.drop_first(), i - 1);
    }
}

/// How a copy-mode run with retention chooses its numbered output
/// slot.
#[derive(Clone, Copy, PartialEq, Eq, Structural)]
pub enum RotationPlan {
    /// A slot (numbered from 1) is free: create and use it.
    UseSlot(u32),
    /// Every slot is occupied: shift each slot's number down by one,
    /// discard the directory shifted to slot 0, and use the highest
    /// slot for the new run.
    RotateAndUse,
}

/// Decides which numbered output slot this run uses, from which slots
/// currently exist.  `occupied[k]` tells whether slot `k + 1` exists.
pub fn plan_rotation(occupied: &Vec<bool>) -> (r: RotationPlan)
    requires
        occupied@.len() < u32::MAX as int,
    ensures
        match first_free_slot(occupied@) {
            Option::Some(k) => r == RotationPlan::UseSlot((k + 1) as u32),
            Option::None => r == RotationPlan::RotateAndUse,
        },
{
    let mut i: usize = 0;
    while i < occupied.len()
        invariant
            i <= occupied.len(),
            forall|j: int| 0 <= j < i ==> occupied@[j],
        decreases occupied.len() - i,
    {
        if !occupied[i] {
            proof {
                lemma_first_free_slot(occupied@, i as int);
            }
            return RotationPlan::UseSlot((i + 1) as u32);
        }
        i += 1;
    }
    proof {
        lemma_first_free_slot(occupied@, occupied@.len() as int);
    }
    RotationPlan::RotateAndUse
}

/// The configuration checks made on entering the output stage, in the
/// order they are made.
#[derive(Clone, Copy, PartialEq, Eq, Structural)]
pub enum OutputCheck {
    /// The output path's volume root is not currently attached.
    DriveMissing,
    /// The required identity could not be read or created.
    IdentityUnreadable,
    /// The volume's identity differs from the job's `output_device`.
    IdentityMismatch,
    /// The output directory is absent and the job may not create it.
    OutputMissing,
    /// All checks passed; `create_output` tells whether the output
    /// directory must first be created.
    Ready { create_output: bool },
}

/// Checks the output volume and directory before anything is written:
/// the volume must be attached; unless the job accepts any volume, the
/// volume identity must be readable and equal to `output_device`; and
/// an absent output directory is only acceptable when the job may
/// create it.
pub fn check_output_volume(
    output_device: &str,
    new_folder: bool,
    drive_attached: bool,
    drive_uuid: &str,
    output_dir_exists: bool,
) -> (r: OutputCheck)
    ensures
        r == spec_check_output_volume(
            output_device@,
            new_folder,
            drive_attached,
            drive_uuid@,
            output_dir_exists,
        ),
{
    if !drive_attached {
        OutputCheck::DriveMissing
    } else if !str_eq(output_device, "special:any") && drive_uuid.unicode_len() == 0 {
        OutputCheck::IdentityUnreadable
    } else if !str_eq(output_device, "special:any") && !str_eq(drive_uuid, output_device) {
        OutputCheck::IdentityMismatch
    } else if !output_dir_exists && !new_folder {
        OutputCheck::OutputMissing
    } else {
        OutputCheck::Ready { create_output: !output_dir_exists }
    }
}

/// What [`check_output_volume`] decides, as a function of its inputs.
pub open spec fn spec_check_output_volume(
    output_device: Seq<char>,
    new_folder: bool,
    drive_attached: bool,
    drive_uuid: Seq<char>,
    output_dir_exists: bool,
) -> OutputCheck {
    if !drive_attached {
        OutputCheck::DriveMissing
    } else if output_device != "special:any"@ && drive_uuid.len() == 0 {
        OutputCheck::IdentityUnreadable
    } else if output_device != "special:any"@ && drive_uuid != output_device {
        OutputCheck::IdentityMismatch
    } else if !output_dir_exists && !new_folder {
        OutputCheck::OutputMissing
    } else {
        OutputCheck::Ready { create_output: !output_dir_exists }
    }
}

/// What the verification stage observed about one copied file.
#[derive(Clone, Copy, PartialEq, Eq, Structural)]
pub enum FileCheck {
    /// The output file exists and its digest equals the input's.
    Match,
    /// The output file does not exist.
    Missing,
    /// The digests differ, or one could not be computed.
    Mismatch,
}

impl DeepView for FileCheck {
    type V = FileCheck;

    open spec fn deep_view(&self) -> FileCheck {
        *self
    }
}

/// The paths of the checks that did not come back [`FileCheck::Match`],
/// in order.
pub open spec fn failed_of(checks: Seq<(Seq<char>, FileCheck)>) -> Seq<Seq<char>>
    decreases checks.len(),
{
    if checks.len() == 0 {
        Seq::empty()
    } else {
        failed_of(checks.drop_last()) + (if checks.last().1 is Match {
            Seq::<Seq<char>>::empty()
        } else {
            seq![checks.last().0]
        })
    }
}

/// The verdict of the verification stage.
pub enum VerifyDecision {
    /// The input and output file counts differ: the job fails at once.
    CountMismatch,
    /// Some files failed: the job fails, naming every failed file.
    Failed(Vec<String>),
    /// All files match and the job copies: the run is complete.
    Complete,
    /// All files match and the job moves: the deletion stage follows.
    Delete,
}

/// Judges the verification stage: the file counts must agree, every
/// pair is examined (no early abort), success requires an empty
/// failure list, and only a successful `move` run proceeds to
/// deletion.
pub fn verify_files(file_behavior: &str, input_count: usize, checks: &Vec<(String, FileCheck)>)
    -> (r: VerifyDecision)
    ensures
        input_count != checks@.len() ==> r is CountMismatch,
        input_count == checks@.len() && failed_of(checks.deep_view()).len() > 0 ==> r is Failed
            && r->Failed_0.deep_view() == failed_of(checks.deep_view()),
        input_count == checks@.len() && failed_of(checks.deep_view()).len() == 0 ==> r == (
        if file_behavior@ == "move"@ {
            VerifyDecision::Delete
        } else {
            VerifyDecision::Complete
        }),
{
    if input_count != checks.len() {
        return VerifyDecision::CountMismatch;
    }
    let mut failed: Vec<String> = Vec::new();
    let mut i: usize = 0;
    while i < checks.len()
        invariant
            i <= checks.len(),
            failed.deep_view() == failed_of(checks.deep_view().take(i as int)),
        decreases checks.len() - i,
    {
        let ghost prev = failed.deep_view();
        match checks[i].1 {
            FileCheck::Match => {},
            _ => {
                failed.push(checks[i].0.clone());
                proof {
                    assert(failed.deep_view() =~= prev.push(checks.deep_view()[i as int].0));
                }
            },
        }
        proof {
            let cv = checks.deep_view();
            assert(cv.take(i + 1).drop_last() =~= cv.take(i as int));
            assert(cv.take(i + 1).last() == cv[i as int]);
            assert(cv[i as int].1 == checks[i as int].1);
            if !(checks[i as int].1 is Match) {
                assert(failed_of(cv.take(i + 1)) =~= prev.push(cv[i as int].0));
            } else {
                assert(failed_of(cv.take(i + 1)) =~= prev);
            }
        }
        i += 1;
    }
    proof {
        assert(checks.deep_view().take(checks.deep_view().len() as int) =~= checks.deep_view());
    }
    if failed.len() > 0 {
        VerifyDecision::Failed(failed)
    } else if str_eq(file_behavior, "move") {
        VerifyDecision::Delete
    } else {
        VerifyDecision::Complete
    }
}

/// The SHA-256 digest of a byte sequence; a function of the bytes
/// alone.
pub uninterp spec fn sha256_of(data: Seq<u8>) -> Seq<u8>;

/// Relies on sha2's `Sha256::digest`: the digest depends on the input
/// bytes alone and is 32 bytes long.
#[verifier::external_body]
fn sha256_digest(data: &[u8]) -> (r: Vec<u8>)
    ensures
        r@ == sha256_of(data@),
        r@.len() == 32,
{
    <sha2::Sha256 as sha2::Digest>::digest(data).to_vec()
}

fn bytes_eq(a: &Vec<u8>, b: &Vec<u8>) -> (r: bool)
    ensures
        r == (a@ == b@),
{
    if a.len() != b.len() {
        return false;
    }
    let mut i: usize = 0;
    while i < a.len()
        invariant
            i <= a.len(),
            a@.len() == b@.len(),
            forall|j: int| 0 <= j < i ==> a@[j] == b@[j],
        decreases a.len() - i,
    {
        if a[i] != b[i] {
            return false;
        }
        i += 1;
    }
    assert(a@ =~= b@);
    true
}

/// Whether two files hold the same content, judged as the original
/// pipeline judges it: by comparing the SHA-256 digests of their
/// bytes.
pub fn compare_files(content1: &Vec<u8>, content2: &Vec<u8>) -> (r: bool)
    ensures
        r == (sha256_of(content1@) == sha256_of(content2@)),
{
    let h1 = sha256_digest(content1.as_slice());
    let h2 = sha256_digest(content2.as_slice());
    bytes_eq(&h1, &h2)
}

/// Relies on dirs::document_dir: the OS well-known documents folder,
/// if the platform defines one.
#[verifier::external_body]
fn documents_dir() -> (r: Option<String>) {
    dirs::document_dir().map(|p| p.to_string_lossy().to_string())
}

/// Relies on dirs::download_dir: the OS well-known downloads folder,
/// if the platform defines one.
#[verifier::external_body]
fn downloads_dir() -> (r: Option<String>) {
    dirs::download_dir().map(|p| p.to_string_lossy().to_string())
}

/// Relies on dirs::desktop_dir: the OS well-known desktop folder, if
/// the platform defines one.
#[verifier::external_body]
fn desktop_dir() -> (r: Option<String>) {
    dirs::desktop_dir().map(|p| p.to_string_lossy().to_string())
}

/// Relies on dirs::audio_dir: the OS well-known music folder, if the
/// platform defines one.
#[verifier::external_body]
fn music_dir() -> (r: Option<String>) {
    dirs::audio_dir().map(|p| p.to_string_lossy().to_string())
}

/// Relies on dirs::picture_dir: the OS well-known pictures folder, if
/// the platform defines one.
#[verifier::external_body]
fn pictures_dir() -> (r: Option<String>) {
    dirs::picture_dir().map(|p| p.to_string_lossy().to_string())
}

/// Relies on dirs::video_dir: the OS well-known videos folder, if the
/// platform defines one.
#[verifier::external_body]
fn videos_dir() -> (r: Option<String>) {
    dirs::video_dir().map(|p| p.to_string_lossy().to_string())
}

/// True when the input source names a well-known library rather than
/// a concrete path.
pub open spec fn is_library_source(path_type: Seq<char>) -> bool {
    path_type == "library"@
}

/// Resolves each input source to a concrete root path: a custom source
/// keeps its path, a library alias becomes the corresponding OS
/// well-known directory.  `None` when an alias is unknown or the
/// platform defines no such directory.
pub fn resolve_input_roots(inputs: &Vec<InputFile>) -> (r: Option<Vec<String>>)
    ensures
        r is Some ==> r->Some_0.deep_view().len() == inputs.deep_view().len(),
        r is Some ==> forall|i: int|
            0 <= i < inputs.deep_view().len() && !is_library_source(
                #[trigger] inputs.deep_view()[i].path_type,
            ) ==> r->Some_0.deep_view()[i] == inputs.deep_view()[i].path,
        (forall|i: int|
            0 <= i < inputs.deep_view().len() ==> !is_library_source(
                #[trigger] inputs.deep_view()[i].path_type,
            )) ==> r is Some,
{
    let mut roots: Vec<String> = Vec::new();
    let mut i: usize = 0;
    while i < inputs.len()
        invariant
            i <= inputs.len(),
            roots.deep_view().len() == i,
            forall|j: int|
                0 <= j < i && !is_library_source(#[trigger] inputs.deep_view()[j].path_type)
                    ==> roots.deep_view()[j] == inputs.deep_view()[j].path,
        decreases inputs.len() - i,
    {
        let input = &inputs[i];
        let ghost prev = roots.deep_view();
        if str_eq(input.path_type.as_str(), "library") {
            let resolved: Option<String> = if str_eq(input.path.as_str(), "documents") {
                documents_dir()
            } else if str_eq(input.path.as_str(), "downloads") {
                downloads_dir()
            } else if str_eq(input.path.as_str(), "desktop") {
                desktop_dir()
            } else if str_eq(input.path.as_str(), "music") {
                music_dir()
            } else if str_eq(input.path.as_str(), "pictures") {
                pictures_dir()
            } else if str_eq(input.path.as_str(), "videos") {
                videos_dir()
            } else {
                Option::None
            };
            match resolved {
                Option::Some(p) => {
                    roots.push(p);
                },
                Option::None => {
                    proof {
                        assert(inputs.deep_view()[i as int] == inputs[i as int]@);
                        assert(is_library_source(inputs.deep_view()[i as int].path_type));
                    }
                    return Option::None;
                },
            }
        } else {
            roots.push(input.path.clone());
        }
        proof {
            assert(roots.deep_view().len() == prev.len() + 1);
            assert(forall|j: int| 0 <= j < prev.len() ==> roots.deep_view()[j] == prev[j]);
        }
        i += 1;
    }
    Option::Some(roots)
}

} // verus!
