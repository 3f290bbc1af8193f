//! The two lines of text shown on the profile: the project being worked on
//! and the number of open plugin windows of the configured plugin.
use vstd::prelude::*;
use vstd::string::StringSliceAdditionalSpecFns;
use vstd::utf8::{decode_utf8, encode_utf8, is_char_boundary};

use crate::config::Config;
use crate::text::{
    decimal, has_prefix, lacks_char, lemma_decimal, lemma_replace_at_start, lemma_replace_free_prefix,
    lemma_replace_free_text, lemma_replace_one_placeholder, lemma_starts_with_chars, replace, replace_all,
    starts_with, usize_to_string,
};

verus! {

broadcast use {vstd::string::group_string_axioms, vstd::utf8::encode_utf8_valid_utf8, vstd::utf8::encode_utf8_decode_utf8};

/// A window below FL Studio's plugin area: its window class and its title.
pub struct ChildWindow {
    pub class_name: String,
    pub title: String,
}

/// FL Studio's main window as the window system shows it: its title and the
/// windows below its plugin area, in the order they are enumerated.
pub struct FlWindow {
    pub title: String,
    pub children: Vec<ChildWindow>,
}

/// The text for the two lines of the presence.
pub struct Info {
    /// The line about the project (the presence's state).
    pub project: String,
    /// The line about the plugin windows (the presence's details).
    pub plugins: String,
}

/// The window class of a plugin's window.
pub open spec fn plugin_class() -> Seq<char> {
    "TPluginForm"@
}

/// Whether `w` is a plugin's window (its class is exactly `plugin_class()`).
pub open spec fn is_plugin_window(w: ChildWindow) -> bool {
    w.class_name@ == plugin_class()
}

/// Positions, in increasing order, of the plugin windows among the first `n` windows.
pub open spec fn plugin_indices(ws: Seq<ChildWindow>, n: int) -> Seq<usize>
    decreases n,
{
    if n <= 0 {
        Seq::empty()
    } else if is_plugin_window(ws[n - 1]) {
        plugin_indices(ws, n - 1).push((n - 1) as usize)
    } else {
        plugin_indices(ws, n - 1)
    }
}

/// How many of the first `n` windows are plugin windows whose title begins with `plugin`.
pub open spec fn matching_count(ws: Seq<ChildWindow>, plugin: Seq<char>, n: int) -> nat
    decreases n,
{
    if n <= 0 {
        0
    } else {
        matching_count(ws, plugin, n - 1) + if is_plugin_window(ws[n - 1]) && starts_with(ws[n - 1].title@, plugin) {
            1nat
        } else {
            0nat
        }
    }
}

/// How many plugin windows have a title that begins with `plugin` (case sensitive).
pub open spec fn plugin_count(ws: Seq<ChildWindow>, plugin: Seq<char>) -> nat {
    matching_count(ws, plugin, ws.len() as int)
}

/// How many of the windows at the positions `idx` have a title that begins with `plugin`.
pub open spec fn titles_matching(ws: Seq<ChildWindow>, idx: Seq<usize>, plugin: Seq<char>) -> nat
    decreases idx.len(),
{
    if idx.len() == 0 {
        0
    } else {
        titles_matching(ws, idx.drop_last(), plugin) + if starts_with(ws[idx.last() as int].title@, plugin) {
            1nat
        } else {
            0nat
        }
    }
}

/// The line about plugins: `plugin_format` with `%x` replaced by the count and
/// then `%y` by the plugin's name; a fixed message when FL Studio is not running.
pub open spec fn plugins_text(fl: Option<FlWindow>, plugin_format: Seq<char>, plugin: Seq<char>) -> Seq<char> {
    match fl {
        None => "not using otts right now"@,
        Some(w) => replace_all(
            replace_all(plugin_format, "%x"@, decimal(plugin_count(w.children@, plugin))),
            "%y"@,
            plugin,
        ),
    }
}

/// The byte length at which the title is cut: its UTF-8 length less the
/// 17 bytes of the trailing " - FL Studio ...." part, and never below zero.
pub open spec fn title_cut(title: Seq<char>) -> int {
    let n = encode_utf8(title).len();
    if n >= 17 {
        n - 17
    } else {
        0
    }
}

/// The greatest character boundary of `bytes` at or below `k` (zero at the least).
pub open spec fn boundary_at_or_below(bytes: Seq<u8>, k: int) -> int
    decreases k,
{
    if k <= 0 {
        0
    } else if is_char_boundary(bytes, k) {
        k
    } else {
        boundary_at_or_below(bytes, k - 1)
    }
}

/// Where the title is cut: the greatest character boundary at or below
/// `title_cut(title)`, so that no character is split.
pub open spec fn project_cut(title: Seq<char>) -> int {
    boundary_at_or_below(encode_utf8(title), title_cut(title))
}

/// The project's name: the characters whose UTF-8 encoding is the first
/// `project_cut(title)` bytes of the title's.
pub open spec fn project_name(title: Seq<char>) -> Seq<char> {
    decode_utf8(encode_utf8(title).take(project_cut(title)))
}

/// The line about the project: `format` with `%%` replaced by the project's
/// name; a fixed message when FL Studio is not running.
pub open spec fn project_text(fl: Option<FlWindow>, format: Seq<char>) -> Seq<char> {
    match fl {
        None => "nothing here..."@,
        Some(w) => replace_all(format, "%%"@, project_name(w.title@)),
    }
}

/// Law: the cut is the greatest character boundary at or below the title's
/// byte length less 17: it splits no character, it is never past that length,
/// and no boundary lies between the two.
pub proof fn lemma_project_cut(title: Seq<char>)
    ensures
        0 <= project_cut(title),
        project_cut(title) <= if encode_utf8(title).len() >= 17 { encode_utf8(title).len() - 17 } else { 0 },
        is_char_boundary(encode_utf8(title), project_cut(title)),
        forall|j: int|
            project_cut(title) < j <= (if encode_utf8(title).len() >= 17 { encode_utf8(title).len() - 17 } else { 0 })
                ==> !is_char_boundary(#[trigger] encode_utf8(title), j),
        encode_utf8(project_name(title)) == encode_utf8(title).take(project_cut(title)),
{
    let bytes = encode_utf8(title);
    lemma_boundary_at_or_below(bytes, title_cut(title));
    let c = project_cut(title);
    vstd::utf8::valid_utf8_split(bytes, c);
    assert(bytes.subrange(0, c) == bytes.take(c));
    vstd::utf8::decode_utf8_encode_utf8(bytes.take(c));
}

/// Law: a project format made of text without `%` around one `%%` gives that
/// text with the project's name in place of `%%`, and the name is the whole
/// title up to the cut, whatever it holds (`" - "` included).
pub proof fn lemma_project_line(w: FlWindow, pre: Seq<char>, suf: Seq<char>)
    requires
        lacks_char(pre, '%'),
        lacks_char(suf, '%'),
    ensures
        project_text(Some(w), pre + "%%"@ + suf) == pre + project_name(w.title@) + suf,
        encode_utf8(project_name(w.title@)) == encode_utf8(w.title@).take(project_cut(w.title@)),
{
    reveal_strlit("%%");
    lemma_replace_one_placeholder(pre, "%%"@, suf, project_name(w.title@));
    lemma_project_cut(w.title@);
}

/// Law: a plugin format made of text without `%` around one `%x` followed by
/// one `%y` gives that text with the count's decimal numeral in place of `%x`
/// and the plugin's name in place of `%y`, whatever the count (zero included).
pub proof fn lemma_plugin_line(w: FlWindow, pre: Seq<char>, mid: Seq<char>, suf: Seq<char>, plugin: Seq<char>)
    requires
        lacks_char(pre, '%'),
        lacks_char(mid, '%'),
        lacks_char(suf, '%'),
    ensures
        plugins_text(Some(w), pre + "%x"@ + mid + "%y"@ + suf, plugin) == pre + decimal(
            plugin_count(w.children@, plugin),
        ) + mid + plugin + suf,
{
    reveal_strlit("%x");
    reveal_strlit("%y");
    let d = decimal(plugin_count(w.children@, plugin));
    let x = "%x"@;
    let y = "%y"@;
    // the first pass replaces the one `%x` and keeps the `%y`
    let ys = y + suf;
    assert(!starts_with(ys, x)) by {
        if starts_with(ys, x) {
            assert(ys.take(2)[1] == x[1]);
        }
    }
    assert(ys.skip(1) =~= seq!['y'] + suf);
    lemma_replace_free_text(seq!['y'] + suf, x, d);
    assert(replace_all(ys, x, d) =~= ys);
    lemma_replace_free_prefix(mid, ys, x, d);
    lemma_replace_at_start(x, mid + ys, d);
    lemma_replace_free_prefix(pre, x + (mid + ys), x, d);
    assert(pre + x + mid + y + suf =~= pre + (x + (mid + ys)));
    let first = pre + d + mid;
    assert(replace_all(pre + x + mid + y + suf, x, d) =~= first + y + suf);
    // the second pass replaces the `%y`
    lemma_decimal(plugin_count(w.children@, plugin));
    assert(lacks_char(first, y[0])) by {
        assert forall|i: int| 0 <= i < first.len() implies first[i] != y[0] by {
            if i < pre.len() {
            } else if i < pre.len() + d.len() {
                assert(first[i] == d[i - pre.len()]);
            } else {
                assert(first[i] == mid[i - pre.len() - d.len()]);
            }
        }
    }
    lemma_replace_one_placeholder(first, y, suf, plugin);
}

proof fn lemma_boundary_at_or_below(bytes: Seq<u8>, k: int)
    requires
        vstd::utf8::valid_utf8(bytes),
    ensures
        0 <= boundary_at_or_below(bytes, k),
        k >= 0 ==> boundary_at_or_below(bytes, k) <= k,
        is_char_boundary(bytes, boundary_at_or_below(bytes, k)),
        forall|j: int| boundary_at_or_below(bytes, k) < j <= k ==> !is_char_boundary(bytes, j),
    decreases k,
{
    if k > 0 && !is_char_boundary(bytes, k) {
        lemma_boundary_at_or_below(bytes, k - 1);
    }
}

/// Law: the project's name of a title of ASCII characters is the title
/// without its last 17 characters (nothing when it is shorter).
pub proof fn lemma_ascii_title(title: Seq<char>)
    requires
        vstd::utf8::is_ascii_chars(title),
    ensures
        project_cut(title) == title_cut(title),
        project_name(title) == title.take(if title.len() >= 17 { title.len() - 17 } else { 0 }),
{
    let bytes = encode_utf8(title);
    vstd::utf8::is_ascii_chars_encode_utf8(title);
    let k = title_cut(title);
    let head = title.take(k);
    assert(vstd::utf8::is_ascii_chars(head));
    vstd::utf8::is_ascii_chars_encode_utf8(head);
    assert(encode_utf8(head) == bytes.take(k));
    if 0 < k {
        vstd::utf8::is_char_boundary_iff_not_is_continuation_byte(bytes, k);
        vstd::utf8::is_ascii_chars_nat_bound(title);
        assert(title[k] as u8 == bytes[k]);
    }
}

/// Law: the count never exceeds the number of plugin windows, and with an
/// empty plugin name every plugin window counts.
pub proof fn lemma_count_bounds(ws: Seq<ChildWindow>, plugin: Seq<char>)
    ensures
        plugin_count(ws, plugin) <= plugin_indices(ws, ws.len() as int).len() <= ws.len(),
        plugin.len() == 0 ==> plugin_count(ws, plugin) == plugin_indices(ws, ws.len() as int).len(),
{
    lemma_count_bounds_upto(ws, plugin, ws.len() as int);
}

/// Law: no windows count nothing; one more window raises the count by one
/// when its class is `TPluginForm` and its title's first characters are, one
/// for one, those of `plugin`, and leaves it unchanged otherwise (a title that
/// only contains the name further on does not count).
pub proof fn lemma_count_push(ws: Seq<ChildWindow>, w: ChildWindow, plugin: Seq<char>)
    ensures
        plugin_count(Seq::empty(), plugin) == 0,
        plugin_count(ws.push(w), plugin) == plugin_count(ws, plugin) + if w.class_name@ == "TPluginForm"@
            && plugin.len() <= w.title@.len() && (forall|i: int|
            0 <= i < plugin.len() ==> w.title@[i] == plugin[i]) {
            1nat
        } else {
            0nat
        },
{
    lemma_starts_with_chars(w.title@, plugin);
    lemma_matching_count_prefix(ws.push(w), ws, plugin, ws.len() as int);
}

proof fn lemma_matching_count_prefix(ws: Seq<ChildWindow>, vs: Seq<ChildWindow>, plugin: Seq<char>, n: int)
    requires
        0 <= n <= vs.len(),
        n <= ws.len(),
        forall|i: int| 0 <= i < n ==> ws[i] == vs[i],
    ensures
        matching_count(ws, plugin, n) == matching_count(vs, plugin, n),
    decreases n,
{
    if n > 0 {
        lemma_matching_count_prefix(ws, vs, plugin, n - 1);
    }
}

proof fn lemma_count_bounds_upto(ws: Seq<ChildWindow>, plugin: Seq<char>, n: int)
    requires
        0 <= n <= ws.len(),
    ensures
        matching_count(ws, plugin, n) <= plugin_indices(ws, n).len() <= n,
        plugin.len() == 0 ==> matching_count(ws, plugin, n) == plugin_indices(ws, n).len(),
    decreases n,
{
    if n > 0 {
        lemma_count_bounds_upto(ws, plugin, n - 1);
        if plugin.len() == 0 {
            assert(ws[n - 1].title@.take(0) =~= plugin);
            assert(starts_with(ws[n - 1].title@, plugin));
        }
    }
}

proof fn lemma_titles_matching_indices(ws: Seq<ChildWindow>, plugin: Seq<char>, n: int)
    requires
        0 <= n <= ws.len(),
        ws.len() <= usize::MAX,
    ensures
        titles_matching(ws, plugin_indices(ws, n), plugin) == matching_count(ws, plugin, n),
        forall|k: int| 0 <= k < plugin_indices(ws, n).len() ==> #[trigger] plugin_indices(ws, n)[k] < n,
    decreases n,
{
    if n > 0 {
        lemma_titles_matching_indices(ws, plugin, n - 1);
        if is_plugin_window(ws[n - 1]) {
            assert(plugin_indices(ws, n).drop_last() == plugin_indices(ws, n - 1));
            assert(plugin_indices(ws, n).last() as int == n - 1);
        }
    }
}

/// The positions, in increasing order, of the plugin windows among `children`.
pub fn get_plugins(children: &Vec<ChildWindow>) -> (plugins: Vec<usize>)
    ensures
        plugins@ == plugin_indices(children@, children@.len() as int),
{
    let class = "TPluginForm".to_owned();
    let mut plugins: Vec<usize> = Vec::new();
    let mut i: usize = 0;
    while i < children.len()
        invariant
            i <= children.len(),
            class@ == plugin_class(),
            plugins@ == plugin_indices(children@, i as int),
        decreases children.len() - i,
    {
        if children[i].class_name == class {
            plugins.push(i);
        }
        i = i + 1;
    }
    plugins
}

/// The line about plugins for FL Studio's window, if it was found.
pub fn count_plugin(result: &Option<FlWindow>, plugin_format: String, plugin: String) -> (line: String)
    ensures
        line@ == plugins_text(*result, plugin_format@, plugin@),
{
    let fl = match result {
        Some(w) => w,
        None => {
            return "not using otts right now".to_owned();
        },
    };
    let hwnds = get_plugins(&fl.children);
    let ghost ws = fl.children@;
    let n_windows = fl.children.len();
    proof {
        assert(ws.len() == n_windows);
        lemma_titles_matching_indices(ws, plugin@, ws.len() as int);
    }
    let mut otts: usize = 0;
    let mut k: usize = 0;
    while k < hwnds.len()
        invariant
            k <= hwnds.len(),
            ws == fl.children@,
            hwnds@ == plugin_indices(ws, ws.len() as int),
            forall|j: int| 0 <= j < hwnds@.len() ==> #[trigger] hwnds@[j] < ws.len(),
            titles_matching(ws, hwnds@, plugin@) == plugin_count(ws, plugin@),
            otts == titles_matching(ws, hwnds@.take(k as int), plugin@),
            otts <= k,
        decreases hwnds.len() - k,
    {
        let h = hwnds[k];
        assert(hwnds@.take(k + 1).drop_last() == hwnds@.take(k as int));
        if has_prefix(fl.children[h].title.as_str(), plugin.as_str()) {
            otts = otts + 1;
        }
        k = k + 1;
    }
    assert(hwnds@.take(hwnds@.len() as int) == hwnds@);
    let count = usize_to_string(otts);
    let with_count = replace(plugin_format.as_str(), "%x", count.as_str());
    replace(with_count.as_str(), "%y", plugin.as_str())
}

/// The title cut before its last 17 bytes, moved back to the nearest
/// character boundary when that length falls inside a character.
pub fn project_of_title(title: &str) -> (name: String)
    ensures
        name@ == project_name(title@),
{
    let n = title.as_bytes().len();
    let mut cut = n.saturating_sub(17);
    assert(is_char_boundary(encode_utf8(title@), 0));
    while !title.is_char_boundary(cut)
        invariant
            cut <= n,
            n == encode_utf8(title@).len(),
            boundary_at_or_below(encode_utf8(title@), cut as int) == project_cut(title@),
            is_char_boundary(encode_utf8(title@), 0),
        decreases cut,
    {
        cut = cut - 1;
    }
    let (head, _tail) = title.split_at(cut);
    let name = head.to_owned();
    proof {
        assert(head.spec_bytes() == encode_utf8(title@).take(cut as int));
        assert(decode_utf8(encode_utf8(head@)) == head@);
    }
    name
}

/// The line about the project for FL Studio's window, if it was found.
pub fn get_project(result: &Option<FlWindow>, format: String) -> (line: String)
    ensures
        line@ == project_text(*result, format@),
{
    match result {
        Some(w) => {
            let fl_project = project_of_title(w.title.as_str());
            replace(format.as_str(), "%%", fl_project.as_str())
        },
        None => "nothing here...".to_owned(),
    }
}

/// Both lines of the presence for FL Studio's window, if it was found.
pub fn get_info(result: &Option<FlWindow>, config: &Config) -> (info: Info)
    ensures
        info.project@ == project_text(*result, config.project_format@),
        info.plugins@ == plugins_text(*result, config.plugin_format@, config.plugin@),
{
    let project = get_project(result, config.project_format.clone());
    let plugins = count_plugin(result, config.plugin_format.clone(), config.plugin.clone());
    Info { project, plugins }
}

} // verus!
