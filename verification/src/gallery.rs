//! The gallery generator: a pure, deterministic mapping from an ordered list
//! of source sections to one self-contained HTML document. Each section
//! becomes one tab button and one content block; the first section is marked
//! active and the rest hidden; within a section the first item is the eager
//! one (autoplay, muted, fully preloaded) and all others are lazy. A fixed
//! stylesheet and a fixed navigation script are embedded; the script depends
//! on the data only through the total section count.

use vstd::prelude::*;
use vstd::string::StringExecFns;

use crate::media::{MediaItem, MediaKind, Section, SpecMediaItem, SpecSection};
use crate::textutil::{append_str, dec_u64, push_char, spec_dec, spec_has_prefix, spec_occurs_at};

verus! {

pub const DOC_HEAD: &'static str = "<!DOCTYPE html>\n<html>\n<head>\n<meta charset=\"utf-8\">\n<title>Gallery</title>\n<style>\n";

pub const CSS_TEXT: &'static str = "body { margin: 0; background: #111; color: #eee; font-family: sans-serif; }\n.tabs { display: flex; gap: 4px; padding: 6px; }\n.tab-button { background: #333; color: #eee; border: none; padding: 8px 14px; cursor: pointer; }\n.tab-button.active { background: #b33; }\n.gallery-section.hidden { display: none; }\n.gallery-container { display: flex; overflow-x: auto; gap: 8px; padding: 8px; }\n.gallery-item { flex: 0 0 auto; width: 85vw; height: 85vh; }\n.gallery-item video, .gallery-item iframe { width: 100%; height: 100%; border: 0; }\n";

pub const HEAD_CLOSE: &'static str = "</style>\n</head>\n<body>\n<div class=\"tabs\">\n";

pub const TAB_OPEN_ACTIVE: &'static str = "<button class=\"tab-button active\" onclick=\"showSection(";

pub const TAB_OPEN_PLAIN: &'static str = "<button class=\"tab-button\" onclick=\"showSection(";

pub const TAB_MID: &'static str = ")\">";

pub const TAB_CLOSE: &'static str = "</button>\n";

pub const TABS_CLOSE: &'static str = "</div>\n";

pub const SECTION_OPEN_ACTIVE: &'static str = "<div class=\"gallery-section active\" data-section=\"";

pub const SECTION_OPEN_HIDDEN: &'static str = "<div class=\"gallery-section hidden\" data-section=\"";

pub const SECTION_MID: &'static str = "\">\n<div class=\"gallery-container\" id=\"gallery-";

pub const SECTION_MID2: &'static str = "\">\n";

pub const SECTION_CLOSE: &'static str = "</div>\n</div>\n";

pub const ITEM_OPEN: &'static str = "<div class=\"gallery-item\" data-index=\"";

pub const ITEM_MID: &'static str = "\">";

pub const ITEM_CLOSE: &'static str = "</div>\n";

pub const VIDEO_OPEN_EAGER: &'static str = "<video controls autoplay muted playsinline preload=\"auto\"><source src=\"";

pub const VIDEO_OPEN_LAZY: &'static str = "<video controls playsinline preload=\"none\"><source src=\"";

pub const VIDEO_CLOSE: &'static str = "\" type=\"video/mp4\"></video>";

pub const IFRAME_OPEN_EAGER: &'static str = "<iframe loading=\"eager\" src=\"";

pub const IFRAME_OPEN_LAZY: &'static str = "<iframe loading=\"lazy\" src=\"";

pub const IFRAME_CLOSE: &'static str = "\" frameborder=\"0\" allowfullscreen sandbox=\"allow-same-origin allow-scripts\"></iframe>";

pub const SCRIPT_OPEN: &'static str = "<script>\nconst TOTAL_SECTIONS = ";

pub const SCRIPT_MID: &'static str = ";\n";

pub const JS_TEXT: &'static str = "let currentSection = 0;\nconst lastPos = new Array(Math.max(TOTAL_SECTIONS, 1)).fill(0);\nfunction sectionItems(s) {\n  return document.querySelectorAll('#gallery-' + s + ' .gallery-item');\n}\nfunction mediaOf(el) {\n  return el ? el.querySelector('video, iframe') : null;\n}\nfunction focusItem(s, j) {\n  const items = sectionItems(s);\n  if (items.length === 0) { return; }\n  const prev = mediaOf(items[lastPos[s]]);\n  if (prev && prev.tagName === 'VIDEO') { prev.muted = true; prev.pause(); }\n  lastPos[s] = j;\n  const el = items[j];\n  el.scrollIntoView({ behavior: 'smooth', inline: 'center', block: 'nearest' });\n  const m = mediaOf(el);\n  if (m && m.tagName === 'VIDEO') {\n    m.muted = false;\n    const p = m.play();\n    if (p && p.catch) { p.catch(function () {}); }\n  }\n}\nfunction showSection(n) {\n  const cur = mediaOf(sectionItems(currentSection)[lastPos[currentSection]]);\n  if (cur && cur.tagName === 'VIDEO') { cur.muted = true; cur.pause(); }\n  const sections = document.querySelectorAll('.gallery-section');\n  const tabs = document.querySelectorAll('.tab-button');\n  sections.forEach(function (el, i) {\n    el.classList.toggle('active', i === n);\n    el.classList.toggle('hidden', i !== n);\n  });\n  tabs.forEach(function (el, i) { el.classList.toggle('active', i === n); });\n  currentSection = n;\n  focusItem(n, lastPos[n]);\n}\nfunction step(d) {\n  const items = sectionItems(currentSection);\n  if (items.length === 0) { return; }\n  const next = (lastPos[currentSection] + d + items.length) % items.length;\n  focusItem(currentSection, next);\n}\ndocument.addEventListener('keydown', function (e) {\n  if (TOTAL_SECTIONS === 0) { return; }\n  if (e.key === 'ArrowRight') { step(1); }\n  else if (e.key === 'ArrowLeft') { step(-1); }\n  else if (e.key === 'ArrowDown' || e.key === 's') {\n    showSection((currentSection + 1) % TOTAL_SECTIONS);\n  }\n});\n";

pub const DOC_TAIL: &'static str = "</script>\n</body>\n</html>\n";

/// The embed block for one item: a `video` element for `Video` kind, an
/// `iframe` for `Embed` kind, in its eager or its lazy form.
pub open spec fn spec_embed_html(item: SpecMediaItem, eager: bool) -> Seq<char> {
    match item.kind {
        MediaKind::Video => (if eager {
            VIDEO_OPEN_EAGER@
        } else {
            VIDEO_OPEN_LAZY@
        }) + item.url + VIDEO_CLOSE@,
        MediaKind::Embed => (if eager {
            IFRAME_OPEN_EAGER@
        } else {
            IFRAME_OPEN_LAZY@
        }) + item.url + IFRAME_CLOSE@,
    }
}

/// One gallery item: a wrapper block carrying the composite position index
/// `section-item`, around the item's embed block. The first item of a
/// section (item index 0) is the eager one.
pub open spec fn spec_item_html(si: int, ii: int, item: SpecMediaItem) -> Seq<char>
    recommends
        0 <= si,
        0 <= ii,
{
    ITEM_OPEN@ + spec_dec(si as nat) + "-"@ + spec_dec(ii as nat) + ITEM_MID@ + spec_embed_html(
        item,
        ii == 0,
    ) + ITEM_CLOSE@
}

/// The concatenation of the blocks of the first `k` items of a section.
pub open spec fn spec_items_upto(si: int, items: Seq<SpecMediaItem>, k: int) -> Seq<char>
    decreases k,
{
    if k <= 0 {
        Seq::empty()
    } else {
        spec_items_upto(si, items, k - 1) + spec_item_html(si, k - 1, items[k - 1])
    }
}

/// The full item run of a section.
pub open spec fn spec_items_html(si: int, items: Seq<SpecMediaItem>) -> Seq<char> {
    spec_items_upto(si, items, items.len() as int)
}

/// One content block: marked active for the first section, hidden otherwise,
/// around the section's item run.
pub open spec fn spec_section_html(si: int, sec: SpecSection) -> Seq<char>
    recommends
        0 <= si,
{
    (if si == 0 {
        SECTION_OPEN_ACTIVE@
    } else {
        SECTION_OPEN_HIDDEN@
    }) + spec_dec(si as nat) + SECTION_MID@ + spec_dec(si as nat) + SECTION_MID2@
        + spec_items_html(si, sec.items) + SECTION_CLOSE@
}

/// One tab button: marked active for the first section only.
pub open spec fn spec_tab_html(si: int, label: Seq<char>) -> Seq<char>
    recommends
        0 <= si,
{
    (if si == 0 {
        TAB_OPEN_ACTIVE@
    } else {
        TAB_OPEN_PLAIN@
    }) + spec_dec(si as nat) + TAB_MID@ + label + TAB_CLOSE@
}

/// The concatenation of the first `k` tab buttons.
pub open spec fn spec_tabs_upto(sections: Seq<SpecSection>, k: int) -> Seq<char>
    decreases k,
{
    if k <= 0 {
        Seq::empty()
    } else {
        spec_tabs_upto(sections, k - 1) + spec_tab_html(k - 1, sections[k - 1].label)
    }
}

/// The concatenation of the first `k` content blocks.
pub open spec fn spec_sections_upto(sections: Seq<SpecSection>, k: int) -> Seq<char>
    decreases k,
{
    if k <= 0 {
        Seq::empty()
    } else {
        spec_sections_upto(sections, k - 1) + spec_section_html(k - 1, sections[k - 1])
    }
}

/// The whole document: fixed head and stylesheet, the tab run, the section
/// run, and the navigation script parameterised by the section count alone.
pub open spec fn spec_gallery(sections: Seq<SpecSection>) -> Seq<char> {
    DOC_HEAD@ + CSS_TEXT@ + HEAD_CLOSE@ + spec_tabs_upto(sections, sections.len() as int)
        + TABS_CLOSE@ + spec_sections_upto(sections, sections.len() as int) + SCRIPT_OPEN@
        + spec_dec(sections.len()) + SCRIPT_MID@ + JS_TEXT@ + DOC_TAIL@
}

/// Generates the gallery document for the given ordered sections. The output
/// is `spec_gallery` of the input and of nothing else, so generation is
/// deterministic.
pub fn generate_gallery(sections: &Vec<Section>) -> (r: String)
    ensures
        r@ == spec_gallery(sections.deep_view()),
{
    let ghost dv: Seq<SpecSection> = sections.deep_view();
    let mut out = String::new();
    append_str(&mut out, DOC_HEAD);
    append_str(&mut out, CSS_TEXT);
    append_str(&mut out, HEAD_CLOSE);
    let n = sections.len();
    proof {
        assert(dv.len() == n);
    }
    let mut i: usize = 0;
    while i < n
        invariant
            n == sections@.len(),
            dv == sections.deep_view(),
            dv.len() == n,
            0 <= i <= n,
            out@ == DOC_HEAD@ + CSS_TEXT@ + HEAD_CLOSE@ + spec_tabs_upto(dv, i as int),
        decreases n - i,
    {
        proof {
            assert(dv[i as int] == sections@[i as int].deep_view());
        }
        if i == 0 {
            append_str(&mut out, TAB_OPEN_ACTIVE);
        } else {
            append_str(&mut out, TAB_OPEN_PLAIN);
        }
        let d = dec_u64(i as u64);
        append_str(&mut out, d.as_str());
        append_str(&mut out, TAB_MID);
        append_str(&mut out, sections[i].label.as_str());
        append_str(&mut out, TAB_CLOSE);
        proof {
            assert(out@ =~= DOC_HEAD@ + CSS_TEXT@ + HEAD_CLOSE@ + spec_tabs_upto(dv, i + 1));
        }
        i = i + 1;
    }
    append_str(&mut out, TABS_CLOSE);
    let ghost pre: Seq<char> = DOC_HEAD@ + CSS_TEXT@ + HEAD_CLOSE@ + spec_tabs_upto(dv, n as int)
        + TABS_CLOSE@;
    i = 0;
    while i < n
        invariant
            n == sections@.len(),
            dv == sections.deep_view(),
            dv.len() == n,
            0 <= i <= n,
            pre == DOC_HEAD@ + CSS_TEXT@ + HEAD_CLOSE@ + spec_tabs_upto(dv, n as int) + TABS_CLOSE@,
            out@ == pre + spec_sections_upto(dv, i as int),
        decreases n - i,
    {
        proof {
            assert(dv[i as int] == sections@[i as int].deep_view());
        }
        if i == 0 {
            append_str(&mut out, SECTION_OPEN_ACTIVE);
        } else {
            append_str(&mut out, SECTION_OPEN_HIDDEN);
        }
        let d = dec_u64(i as u64);
        append_str(&mut out, d.as_str());
        append_str(&mut out, SECTION_MID);
        append_str(&mut out, d.as_str());
        append_str(&mut out, SECTION_MID2);
        let ghost secpre: Seq<char> = pre + spec_sections_upto(dv, i as int) + (if i == 0 {
            SECTION_OPEN_ACTIVE@
        } else {
            SECTION_OPEN_HIDDEN@
        }) + spec_dec(i as nat) + SECTION_MID@ + spec_dec(i as nat) + SECTION_MID2@;
        proof {
            assert(out@ == secpre);
        }
        let sec = &sections[i];
        let m = sec.items.len();
        proof {
            assert(dv[i as int].items == sec.items.deep_view());
            assert(dv[i as int].items.len() == m);
        }
        let mut j: usize = 0;
        while j < m
            invariant
                m == sec.items@.len(),
                dv[i as int].items == sec.items.deep_view(),
                dv[i as int].items.len() == m,
                0 <= j <= m,
                i < n,
                out@ == secpre + spec_items_upto(i as int, dv[i as int].items, j as int),
            decreases m - j,
        {
            proof {
                assert(dv[i as int].items[j as int] == sec.items@[j as int].deep_view());
            }
            append_str(&mut out, ITEM_OPEN);
            let di = dec_u64(i as u64);
            append_str(&mut out, di.as_str());
            push_char(&mut out, '-');
            let dj = dec_u64(j as u64);
            append_str(&mut out, dj.as_str());
            append_str(&mut out, ITEM_MID);
            let item = &sec.items[j];
            let eager = j == 0;
            match item.kind {
                MediaKind::Video => {
                    if eager {
                        append_str(&mut out, VIDEO_OPEN_EAGER);
                    } else {
                        append_str(&mut out, VIDEO_OPEN_LAZY);
                    }
                    append_str(&mut out, item.url.as_str());
                    append_str(&mut out, VIDEO_CLOSE);
                },
                MediaKind::Embed => {
                    if eager {
                        append_str(&mut out, IFRAME_OPEN_EAGER);
                    } else {
                        append_str(&mut out, IFRAME_OPEN_LAZY);
                    }
                    append_str(&mut out, item.url.as_str());
                    append_str(&mut out, IFRAME_CLOSE);
                },
            }
            append_str(&mut out, ITEM_CLOSE);
            proof {
                assert(seq!['-'] =~= "-"@) by {
                    reveal_strlit("-");
                }
                assert(out@ =~= secpre + spec_items_upto(i as int, dv[i as int].items, j + 1));
            }
            j = j + 1;
        }
        append_str(&mut out, SECTION_CLOSE);
        proof {
            assert(spec_items_upto(i as int, dv[i as int].items, m as int) == spec_items_html(
                i as int,
                dv[i as int].items,
            ));
            assert(out@ =~= pre + spec_sections_upto(dv, i + 1));
        }
        i = i + 1;
    }
    append_str(&mut out, SCRIPT_OPEN);
    let d = dec_u64(n as u64);
    append_str(&mut out, d.as_str());
    append_str(&mut out, SCRIPT_MID);
    append_str(&mut out, JS_TEXT);
    append_str(&mut out, DOC_TAIL);
    proof {
        assert(out@ =~= spec_gallery(dv));
    }
    out
}

/// Where item `j`'s block starts within its section's item run.
pub open spec fn spec_item_offset(si: int, items: Seq<SpecMediaItem>, j: int) -> int {
    spec_items_upto(si, items, j).len() as int
}

/// Where section `i`'s block starts within the section run.
pub open spec fn spec_section_offset(sections: Seq<SpecSection>, i: int) -> int {
    spec_sections_upto(sections, i).len() as int
}

/// Where the section run starts within the whole document.
pub open spec fn spec_section_run_offset(sections: Seq<SpecSection>) -> int {
    (DOC_HEAD@ + CSS_TEXT@ + HEAD_CLOSE@ + spec_tabs_upto(sections, sections.len() as int)
        + TABS_CLOSE@).len() as int
}

proof fn lemma_concat_prefix_subrange(a: Seq<char>, b: Seq<char>, lo: int, hi: int)
    requires
        0 <= lo <= hi <= a.len(),
    ensures
        (a + b).subrange(lo, hi) == a.subrange(lo, hi),
{
    assert((a + b).subrange(lo, hi) =~= a.subrange(lo, hi));
}

proof fn lemma_concat_last_piece(a: Seq<char>, b: Seq<char>)
    ensures
        (a + b).subrange(a.len() as int, a.len() + b.len() as int) == b,
{
    assert((a + b).subrange(a.len() as int, a.len() + b.len() as int) =~= b);
}

proof fn lemma_items_upto_contains(si: int, items: Seq<SpecMediaItem>, j: int, k: int)
    requires
        0 <= j < k <= items.len(),
    ensures
        spec_item_offset(si, items, j) + spec_item_html(si, j, items[j]).len()
            <= spec_items_upto(si, items, k).len(),
        spec_items_upto(si, items, k).subrange(
            spec_item_offset(si, items, j),
            spec_item_offset(si, items, j) + spec_item_html(si, j, items[j]).len(),
        ) == spec_item_html(si, j, items[j]),
    decreases k,
{
    if k == j + 1 {
        lemma_concat_last_piece(spec_items_upto(si, items, j), spec_item_html(si, j, items[j]));
    } else {
        lemma_items_upto_contains(si, items, j, k - 1);
        lemma_concat_prefix_subrange(
            spec_items_upto(si, items, k - 1),
            spec_item_html(si, k - 1, items[k - 1]),
            spec_item_offset(si, items, j),
            spec_item_offset(si, items, j) + spec_item_html(si, j, items[j]).len(),
        );
    }
}

/// Law: within a section's item run, every item contributes exactly one
/// block — the subrange that starts where the blocks of the items before it
/// end — so the blocks stand in input order, one per item.
pub proof fn lemma_one_block_per_item(si: int, items: Seq<SpecMediaItem>)
    ensures
        forall|j: int|
            0 <= j < items.len() ==> spec_items_html(si, items).subrange(
                #[trigger] spec_item_offset(si, items, j),
                spec_item_offset(si, items, j) + spec_item_html(si, j, items[j]).len(),
            ) == spec_item_html(si, j, items[j]),
{
    assert forall|j: int| 0 <= j < items.len() implies spec_items_html(si, items).subrange(
        #[trigger] spec_item_offset(si, items, j),
        spec_item_offset(si, items, j) + spec_item_html(si, j, items[j]).len(),
    ) == spec_item_html(si, j, items[j]) by {
        lemma_items_upto_contains(si, items, j, items.len() as int);
    }
}

proof fn lemma_sections_upto_contains(sections: Seq<SpecSection>, i: int, k: int)
    requires
        0 <= i < k <= sections.len(),
    ensures
        spec_section_offset(sections, i) + spec_section_html(i, sections[i]).len()
            <= spec_sections_upto(sections, k).len(),
        spec_sections_upto(sections, k).subrange(
            spec_section_offset(sections, i),
            spec_section_offset(sections, i) + spec_section_html(i, sections[i]).len(),
        ) == spec_section_html(i, sections[i]),
    decreases k,
{
    if k == i + 1 {
        lemma_concat_last_piece(
            spec_sections_upto(sections, i),
            spec_section_html(i, sections[i]),
        );
    } else {
        lemma_sections_upto_contains(sections, i, k - 1);
        lemma_concat_prefix_subrange(
            spec_sections_upto(sections, k - 1),
            spec_section_html(k - 1, sections[k - 1]),
            spec_section_offset(sections, i),
            spec_section_offset(sections, i) + spec_section_html(i, sections[i]).len(),
        );
    }
}

proof fn lemma_occurs_in_middle(p: Seq<char>, r: Seq<char>, q: Seq<char>, i: int, x: Seq<char>)
    requires
        spec_occurs_at(r, i, x),
    ensures
        spec_occurs_at(p + r + q, p.len() + i, x),
{
    assert((p + r + q).subrange(p.len() + i, p.len() + i + x.len()) =~= x);
}

/// Law: section `i`'s block occurs in the generated document at the section
/// run's offset plus the lengths of the blocks before it — each section
/// yields exactly one tab target block, in input order.
pub proof fn lemma_section_blocks_in_document(sections: Seq<SpecSection>)
    ensures
        forall|i: int|
            0 <= i < sections.len() ==> spec_occurs_at(
                spec_gallery(sections),
                spec_section_run_offset(sections) + #[trigger] spec_section_offset(sections, i),
                spec_section_html(i, sections[i]),
            ),
{
    let n = sections.len() as int;
    let pre = DOC_HEAD@ + CSS_TEXT@ + HEAD_CLOSE@ + spec_tabs_upto(sections, n) + TABS_CLOSE@;
    let run = spec_sections_upto(sections, n);
    let post = SCRIPT_OPEN@ + spec_dec(sections.len()) + SCRIPT_MID@ + JS_TEXT@ + DOC_TAIL@;
    assert(spec_gallery(sections) =~= pre + run + post);
    assert forall|i: int| 0 <= i < sections.len() implies spec_occurs_at(
        spec_gallery(sections),
        spec_section_run_offset(sections) + #[trigger] spec_section_offset(sections, i),
        spec_section_html(i, sections[i]),
    ) by {
        lemma_sections_upto_contains(sections, i, n);
        lemma_occurs_in_middle(
            pre,
            run,
            post,
            spec_section_offset(sections, i),
            spec_section_html(i, sections[i]),
        );
    }
}

/// Where a section's item run starts within the section's own block.
pub open spec fn spec_item_run_offset(si: int, sec: SpecSection) -> int {
    ((if si == 0 {
        SECTION_OPEN_ACTIVE@
    } else {
        SECTION_OPEN_HIDDEN@
    }) + spec_dec(si as nat) + SECTION_MID@ + spec_dec(si as nat) + SECTION_MID2@).len() as int
}

/// Law: a section's block carries that section's item run, whole and at its
/// fixed place — so, with `lemma_section_blocks_in_document` and
/// `lemma_one_block_per_item`, every item's block stands in the generated
/// document exactly once, in input order.
pub proof fn lemma_item_run_in_section(si: int, sec: SpecSection)
    ensures
        spec_occurs_at(
            spec_section_html(si, sec),
            spec_item_run_offset(si, sec),
            spec_items_html(si, sec.items),
        ),
{
    let off = spec_item_run_offset(si, sec);
    let run = spec_items_html(si, sec.items);
    assert(spec_section_html(si, sec).subrange(off, off + run.len()) =~= run);
}

proof fn lemma_prefix_of_concat(a: Seq<char>, b: Seq<char>)
    ensures
        spec_has_prefix(a + b, a),
{
    assert((a + b).subrange(0, a.len() as int) =~= a);
}

proof fn lemma_prefix_mismatch(p: Seq<char>, a: Seq<char>, b: Seq<char>, k: int)
    requires
        spec_has_prefix(p, a),
        0 <= k < a.len(),
        k < b.len(),
        a[k] != b[k],
    ensures
        !spec_has_prefix(p, b),
{
    if spec_has_prefix(p, b) {
        assert(p.subrange(0, a.len() as int)[k] == p[k]);
        assert(p.subrange(0, b.len() as int)[k] == p[k]);
        assert(false);
    }
}

/// Where tab button `i` starts within the tab run.
pub open spec fn spec_tab_offset(sections: Seq<SpecSection>, i: int) -> int {
    spec_tabs_upto(sections, i).len() as int
}

/// Where the tab run starts within the whole document.
pub open spec fn spec_tab_run_offset() -> int {
    (DOC_HEAD@ + CSS_TEXT@ + HEAD_CLOSE@).len() as int
}

proof fn lemma_tabs_upto_contains(sections: Seq<SpecSection>, i: int, k: int)
    requires
        0 <= i < k <= sections.len(),
    ensures
        spec_tab_offset(sections, i) + spec_tab_html(i, sections[i].label).len()
            <= spec_tabs_upto(sections, k).len(),
        spec_tabs_upto(sections, k).subrange(
            spec_tab_offset(sections, i),
            spec_tab_offset(sections, i) + spec_tab_html(i, sections[i].label).len(),
        ) == spec_tab_html(i, sections[i].label),
    decreases k,
{
    if k == i + 1 {
        lemma_concat_last_piece(
            spec_tabs_upto(sections, i),
            spec_tab_html(i, sections[i].label),
        );
    } else {
        lemma_tabs_upto_contains(sections, i, k - 1);
        lemma_concat_prefix_subrange(
            spec_tabs_upto(sections, k - 1),
            spec_tab_html(k - 1, sections[k - 1].label),
            spec_tab_offset(sections, i),
            spec_tab_offset(sections, i) + spec_tab_html(i, sections[i].label).len(),
        );
    }
}

/// Law: section `i`'s tab button occurs in the generated document at the
/// tab run's offset plus the lengths of the buttons before it — one button
/// per section, in input order.
pub proof fn lemma_tab_buttons_in_document(sections: Seq<SpecSection>)
    ensures
        forall|i: int|
            0 <= i < sections.len() ==> spec_occurs_at(
                spec_gallery(sections),
                spec_tab_run_offset() + #[trigger] spec_tab_offset(sections, i),
                spec_tab_html(i, sections[i].label),
            ),
{
    let n = sections.len() as int;
    let pre = DOC_HEAD@ + CSS_TEXT@ + HEAD_CLOSE@;
    let run = spec_tabs_upto(sections, n);
    let post = TABS_CLOSE@ + spec_sections_upto(sections, n) + SCRIPT_OPEN@ + spec_dec(
        sections.len(),
    ) + SCRIPT_MID@ + JS_TEXT@ + DOC_TAIL@;
    assert(spec_gallery(sections) =~= pre + run + post);
    assert forall|i: int| 0 <= i < sections.len() implies spec_occurs_at(
        spec_gallery(sections),
        spec_tab_run_offset() + #[trigger] spec_tab_offset(sections, i),
        spec_tab_html(i, sections[i].label),
    ) by {
        lemma_tabs_upto_contains(sections, i, n);
        lemma_occurs_in_middle(
            pre,
            run,
            post,
            spec_tab_offset(sections, i),
            spec_tab_html(i, sections[i].label),
        );
    }
}

/// Whether a block carries the active-section marking.
pub open spec fn marks_active_section(p: Seq<char>) -> bool {
    spec_has_prefix(p, SECTION_OPEN_ACTIVE@)
}

/// Whether a block carries the hidden-section marking.
pub open spec fn marks_hidden_section(p: Seq<char>) -> bool {
    spec_has_prefix(p, SECTION_OPEN_HIDDEN@)
}

/// Whether a tab button carries the active marking.
pub open spec fn marks_active_tab(p: Seq<char>) -> bool {
    spec_has_prefix(p, TAB_OPEN_ACTIVE@)
}

proof fn lemma_section_marking(si: int, sec: SpecSection)
    requires
        0 <= si,
    ensures
        marks_active_section(spec_section_html(si, sec)) <==> si == 0,
        marks_hidden_section(spec_section_html(si, sec)) <==> si != 0,
{
    reveal_strlit("<div class=\"gallery-section active\" data-section=\"");
    reveal_strlit("<div class=\"gallery-section hidden\" data-section=\"");
    let p = spec_section_html(si, sec);
    let opener = if si == 0 {
        SECTION_OPEN_ACTIVE@
    } else {
        SECTION_OPEN_HIDDEN@
    };
    let rest = spec_dec(si as nat) + SECTION_MID@ + spec_dec(si as nat) + SECTION_MID2@
        + spec_items_html(si, sec.items) + SECTION_CLOSE@;
    assert(p =~= opener + rest);
    lemma_prefix_of_concat(opener, rest);
    assert(SECTION_OPEN_ACTIVE@[28] == 'a');
    assert(SECTION_OPEN_HIDDEN@[28] == 'h');
    if si == 0 {
        lemma_prefix_mismatch(p, SECTION_OPEN_ACTIVE@, SECTION_OPEN_HIDDEN@, 28);
    } else {
        lemma_prefix_mismatch(p, SECTION_OPEN_HIDDEN@, SECTION_OPEN_ACTIVE@, 28);
    }
}

proof fn lemma_tab_marking(si: int, label: Seq<char>)
    requires
        0 <= si,
    ensures
        marks_active_tab(spec_tab_html(si, label)) <==> si == 0,
{
    reveal_strlit("<button class=\"tab-button active\" onclick=\"showSection(");
    reveal_strlit("<button class=\"tab-button\" onclick=\"showSection(");
    let p = spec_tab_html(si, label);
    let opener = if si == 0 {
        TAB_OPEN_ACTIVE@
    } else {
        TAB_OPEN_PLAIN@
    };
    let rest = spec_dec(si as nat) + TAB_MID@ + label + TAB_CLOSE@;
    assert(p =~= opener + rest);
    lemma_prefix_of_concat(opener, rest);
    assert(TAB_OPEN_ACTIVE@[25] == ' ');
    assert(TAB_OPEN_PLAIN@[25] == '\"');
    if si != 0 {
        lemma_prefix_mismatch(p, TAB_OPEN_PLAIN@, TAB_OPEN_ACTIVE@, 25);
    }
}

/// Law: in the generated document, exactly the first section's block is
/// marked active and every other block hidden, and exactly the first tab
/// button is marked active — whatever the section count.
pub proof fn lemma_active_exactly_first(sections: Seq<SpecSection>)
    ensures
        forall|i: int|
            0 <= i < sections.len() ==> (marks_active_section(
                #[trigger] spec_section_html(i, sections[i]),
            ) <==> i == 0),
        forall|i: int|
            0 <= i < sections.len() ==> (marks_hidden_section(
                spec_section_html(i, sections[i]),
            ) <==> i != 0),
        forall|i: int|
            0 <= i < sections.len() ==> (marks_active_tab(
                #[trigger] spec_tab_html(i, sections[i].label),
            ) <==> i == 0),
{
    assert forall|i: int| 0 <= i < sections.len() implies (marks_active_section(
        #[trigger] spec_section_html(i, sections[i]),
    ) <==> i == 0) && (marks_hidden_section(spec_section_html(i, sections[i])) <==> i != 0) by {
        lemma_section_marking(i, sections[i]);
    }
    assert forall|i: int| 0 <= i < sections.len() implies (marks_active_tab(
        #[trigger] spec_tab_html(i, sections[i].label),
    ) <==> i == 0) by {
        lemma_tab_marking(i, sections[i].label);
    }
}

/// Whether an embed block is the eager form: autoplaying, muted, fully
/// preloaded video, or an eagerly loaded iframe.
pub open spec fn marks_eager_embed(p: Seq<char>) -> bool {
    spec_has_prefix(p, VIDEO_OPEN_EAGER@) || spec_has_prefix(p, IFRAME_OPEN_EAGER@)
}

/// Whether an embed block is the lazy form: no autoplay, preload "none", or
/// a lazily loaded iframe.
pub open spec fn marks_lazy_embed(p: Seq<char>) -> bool {
    spec_has_prefix(p, VIDEO_OPEN_LAZY@) || spec_has_prefix(p, IFRAME_OPEN_LAZY@)
}

proof fn lemma_embed_marking(item: SpecMediaItem, eager: bool)
    ensures
        marks_eager_embed(spec_embed_html(item, eager)) <==> eager,
        marks_lazy_embed(spec_embed_html(item, eager)) <==> !eager,
{
    reveal_strlit("<video controls autoplay muted playsinline preload=\"auto\"><source src=\"");
    reveal_strlit("<video controls playsinline preload=\"none\"><source src=\"");
    reveal_strlit("<iframe loading=\"eager\" src=\"");
    reveal_strlit("<iframe loading=\"lazy\" src=\"");
    let p = spec_embed_html(item, eager);
    assert(VIDEO_OPEN_EAGER@[16] == 'a');
    assert(VIDEO_OPEN_LAZY@[16] == 'p');
    assert(IFRAME_OPEN_EAGER@[17] == 'e');
    assert(IFRAME_OPEN_LAZY@[17] == 'l');
    assert(VIDEO_OPEN_EAGER@[1] == 'v');
    assert(VIDEO_OPEN_LAZY@[1] == 'v');
    assert(IFRAME_OPEN_EAGER@[1] == 'i');
    assert(IFRAME_OPEN_LAZY@[1] == 'i');
    match item.kind {
        MediaKind::Video => {
            let opener = if eager {
                VIDEO_OPEN_EAGER@
            } else {
                VIDEO_OPEN_LAZY@
            };
            assert(p =~= opener + (item.url + VIDEO_CLOSE@));
            lemma_prefix_of_concat(opener, item.url + VIDEO_CLOSE@);
            if eager {
                lemma_prefix_mismatch(p, VIDEO_OPEN_EAGER@, VIDEO_OPEN_LAZY@, 16);
                lemma_prefix_mismatch(p, VIDEO_OPEN_EAGER@, IFRAME_OPEN_EAGER@, 1);
                lemma_prefix_mismatch(p, VIDEO_OPEN_EAGER@, IFRAME_OPEN_LAZY@, 1);
            } else {
                lemma_prefix_mismatch(p, VIDEO_OPEN_LAZY@, VIDEO_OPEN_EAGER@, 16);
                lemma_prefix_mismatch(p, VIDEO_OPEN_LAZY@, IFRAME_OPEN_EAGER@, 1);
                lemma_prefix_mismatch(p, VIDEO_OPEN_LAZY@, IFRAME_OPEN_LAZY@, 1);
            }
        },
        MediaKind::Embed => {
            let opener = if eager {
                IFRAME_OPEN_EAGER@
            } else {
                IFRAME_OPEN_LAZY@
            };
            assert(p =~= opener + (item.url + IFRAME_CLOSE@));
            lemma_prefix_of_concat(opener, item.url + IFRAME_CLOSE@);
            if eager {
                lemma_prefix_mismatch(p, IFRAME_OPEN_EAGER@, IFRAME_OPEN_LAZY@, 17);
                lemma_prefix_mismatch(p, IFRAME_OPEN_EAGER@, VIDEO_OPEN_EAGER@, 1);
                lemma_prefix_mismatch(p, IFRAME_OPEN_EAGER@, VIDEO_OPEN_LAZY@, 1);
            } else {
                lemma_prefix_mismatch(p, IFRAME_OPEN_LAZY@, IFRAME_OPEN_EAGER@, 17);
                lemma_prefix_mismatch(p, IFRAME_OPEN_LAZY@, VIDEO_OPEN_EAGER@, 1);
                lemma_prefix_mismatch(p, IFRAME_OPEN_LAZY@, VIDEO_OPEN_LAZY@, 1);
            }
        },
    }
}

/// Law: within every section, exactly one item — the first — gets the eager
/// embed form, and every other item the lazy form, for sections of any size.
pub proof fn lemma_first_item_eager(items: Seq<SpecMediaItem>)
    ensures
        forall|j: int|
            0 <= j < items.len() ==> (marks_eager_embed(
                spec_embed_html(#[trigger] items[j], j == 0),
            ) <==> j == 0),
        forall|j: int|
            0 <= j < items.len() ==> (marks_lazy_embed(spec_embed_html(items[j], j == 0)) <==> j
                != 0),
{
    assert forall|j: int| 0 <= j < items.len() implies (marks_eager_embed(
        spec_embed_html(#[trigger] items[j], j == 0),
    ) <==> j == 0) && (marks_lazy_embed(spec_embed_html(items[j], j == 0)) <==> j != 0) by {
        lemma_embed_marking(items[j], j == 0);
    }
}

/// Law: generation is deterministic — equal section lists give equal
/// documents; `generate_gallery`'s contract fixes its output as
/// `spec_gallery` of the input and of nothing else, so two runs on the same
/// ordered section list yield byte-identical text.
pub proof fn lemma_generation_deterministic(a: Seq<SpecSection>, b: Seq<SpecSection>)
    requires
        a == b,
    ensures
        spec_gallery(a) == spec_gallery(b),
{
}

/// The output step's decision: with no sections there is nothing to write,
/// otherwise the document to write is the generated gallery.
pub fn render_gallery(sections: &Vec<Section>) -> (r: Option<String>)
    ensures
        match r {
            Some(h) => sections@.len() > 0 && h@ == spec_gallery(sections.deep_view()),
            None => sections@.len() == 0,
        },
{
    if sections.len() == 0 {
        None
    } else {
        Some(generate_gallery(sections))
    }
}

} // verus!
