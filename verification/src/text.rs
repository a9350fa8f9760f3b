//! Measuring text in terminal columns, and fitting it into them.
//!
//! Session names hold emoji, which take two columns and may be made of several characters. Text that
//! is cut for a column goes through here.

use crate::strings::append_text;
use unicode_segmentation::UnicodeSegmentation;
use unicode_width::UnicodeWidthStr;
use vstd::prelude::*;

verus! {

/// The columns that a text takes in a terminal.
pub uninterp spec fn columns(text: Seq<char>) -> usize;

/// The characters of a text in the groups that are seen as one.
pub uninterp spec fn grapheme_clusters(text: Seq<char>) -> Seq<Seq<char>>;

/// `UnicodeWidthStr::width` of the `unicode-width` crate: how many columns a text takes depends on the
/// text alone, and every space behind a text takes one more. How many columns a text takes otherwise
/// stays unsaid.
#[verifier::external_body]
pub fn display_width(text: &str) -> (width: usize)
    ensures
        width == columns(text@),
        forall|n: int|
            #![trigger spaces(n)]
            0 <= n && width + n <= usize::MAX ==> columns(text@ + spaces(n)) == width + n,
{
    UnicodeWidthStr::width(text)
}

/// Texts one behind the other.
pub open spec fn concatenated(texts: Seq<Seq<char>>) -> Seq<char>
    decreases texts.len(),
{
    if texts.len() == 0 {
        Seq::empty()
    } else {
        concatenated(texts.drop_last()) + texts.last()
    }
}

/// `UnicodeSegmentation::graphemes` of the `unicode-segmentation` crate, with extended groups: how a
/// text is grouped depends on the text alone, and the groups one behind the other are the text. Where
/// a group ends stays unsaid.
#[verifier::external_body]
fn clusters_of(text: &str) -> (clusters: Vec<String>)
    ensures
        crate::strings::text_views(clusters@) == grapheme_clusters(text@),
        concatenated(crate::strings::text_views(clusters@)) == text@,
{
    text.graphemes(true).map(|cluster| cluster.to_string()).collect()
}

/// How many groups fit: from group `i` on, with `width` columns taken, as many as leave the columns at
/// or below the target.
pub open spec fn fitting_clusters(widths: Seq<usize>, i: int, width: int, target: int) -> int
    decreases widths.len() - i,
{
    if 0 <= i < widths.len() && width + widths[i] <= target {
        fitting_clusters(widths, i + 1, width + widths[i], target)
    } else {
        i
    }
}

/// A text, in groups with their widths, cut to fit some columns, one of which is for the mark that it
/// was cut.
pub open spec fn cut_clusters(clusters: Seq<Seq<char>>, widths: Seq<usize>, budget: int) -> Seq<char> {
    concatenated(clusters.take(fitting_clusters(widths, 0, 0, budget - 1))).push('…')
}

/// The widths of texts.
pub open spec fn widths_of(texts: Seq<Seq<char>>) -> Seq<usize> {
    texts.map_values(|t: Seq<char>| columns(t))
}

/// A text fitted into some columns: whole where it fits, else cut between groups, with a mark that it
/// was; nothing where there is no column.
pub open spec fn truncated(text: Seq<char>, budget: int) -> Seq<char> {
    if columns(text) <= budget {
        text
    } else if budget == 0 {
        Seq::empty()
    } else {
        let clusters = grapheme_clusters(text);
        cut_clusters(clusters, widths_of(clusters), budget)
    }
}

/// Cuts a text, in groups with their widths, to fit some columns.
pub fn truncate_clusters(clusters: &Vec<String>, widths: &Vec<usize>, budget: usize) -> (text: String)
    requires
        clusters@.len() == widths@.len(),
        budget > 0,
    ensures
        text@ == cut_clusters(crate::strings::text_views(clusters@), widths@, budget as int),
{
    let ghost views = crate::strings::text_views(clusters@);
    let target: usize = budget - 1;
    let mut text = String::new();
    let mut width: usize = 0;
    let mut i: usize = 0;
    assert(views.take(0).len() == 0);
    while i < clusters.len() && widths[i] <= target - width
        invariant
            i <= clusters@.len(),
            clusters@.len() == widths@.len(),
            width <= target,
            views == crate::strings::text_views(clusters@),
            text@ == concatenated(views.take(i as int)),
            fitting_clusters(widths@, 0, 0, target as int) == fitting_clusters(
                widths@,
                i as int,
                width as int,
                target as int,
            ),
        decreases clusters@.len() - i,
    {
        proof {
            assert(views.take(i + 1).drop_last() == views.take(i as int));
            assert(views.take(i + 1).last() == clusters@[i as int]@);
        }
        append_text(&mut text, clusters[i].as_str());
        width = width + widths[i];
        i = i + 1;
    }
    text.push('…');
    text
}

/// Fits a text into some columns. Groups of characters that are seen as one are never torn apart.
pub fn truncate_to_width(text: &str, budget: usize) -> (r: String)
    ensures
        r@ == truncated(text@, budget as int),
{
    if display_width(text) <= budget {
        return text.to_owned();
    }
    if budget == 0 {
        return String::new();
    }
    let clusters = clusters_of(text);
    let ghost views = crate::strings::text_views(clusters@);
    let mut widths: Vec<usize> = Vec::new();
    let mut i: usize = 0;
    while i < clusters.len()
        invariant
            i <= clusters@.len(),
            views == crate::strings::text_views(clusters@),
            widths@ == widths_of(views).take(i as int),
        decreases clusters@.len() - i,
    {
        assert(views[i as int] == clusters@[i as int]@);
        widths.push(display_width(clusters[i].as_str()));
        assert(widths@ =~= widths_of(views).take(i + 1));
        i = i + 1;
    }
    assert(widths_of(views).take(i as int) == widths_of(views));
    truncate_clusters(&clusters, &widths, budget)
}

/// Spaces.
pub open spec fn spaces(count: int) -> Seq<char> {
    Seq::new(count as nat, |i: int| ' ')
}

/// A text filled up with spaces to some columns, by the columns it takes.
pub open spec fn padded(text: Seq<char>, taken: int, width: int) -> Seq<char> {
    text + spaces(if taken < width {
        width - taken
    } else {
        0
    })
}

/// Fills a text that takes `taken` columns up with spaces.
pub fn pad_columns(text: String, taken: usize, width: usize) -> (r: String)
    ensures
        r@ == padded(text@, taken as int, width as int),
{
    let mut r = text;
    let ghost before = r@;
    let missing: usize = width.saturating_sub(taken);
    let mut i: usize = 0;
    assert(before + spaces(0) =~= before);
    while i < missing
        invariant
            i <= missing,
            r@ == before + spaces(i as int),
        decreases missing - i,
    {
        r.push(' ');
        assert(r@ =~= before + spaces(i + 1));
        i = i + 1;
    }
    r
}

/// A text fitted into some columns, and filled up with spaces where it takes fewer.
pub open spec fn filled(text: Seq<char>, width: int) -> Seq<char> {
    let fitted = truncated(text, width);
    padded(fitted, columns(fitted) as int, width)
}

/// Fits a text into some columns, and fills it up with spaces where it takes fewer: what comes out
/// takes just these columns wherever the fitted text takes no more, as every text does that fits whole.
pub fn pad_to_width(text: &str, width: usize) -> (r: String)
    ensures
        r@ == filled(text@, width as int),
        columns(truncated(text@, width as int)) <= width ==> columns(r@) == width,
        columns(text@) <= width ==> columns(r@) == width,
{
    let fitted = truncate_to_width(text, width);
    let taken: usize = display_width(fitted.as_str());
    pad_columns(fitted, taken, width)
}

/// The columns of groups together.
pub open spec fn total_width(widths: Seq<usize>) -> int
    decreases widths.len(),
{
    if widths.len() == 0 {
        0
    } else {
        total_width(widths.drop_last()) + widths.last()
    }
}

proof fn lemma_fitting(widths: Seq<usize>, i: int, width: int, target: int)
    requires
        0 <= i <= widths.len(),
        width == total_width(widths.take(i)),
        width <= target,
    ensures
        i <= fitting_clusters(widths, i, width, target) <= widths.len(),
        total_width(widths.take(fitting_clusters(widths, i, width, target))) <= target,
        fitting_clusters(widths, i, width, target) < widths.len() ==> total_width(
            widths.take(fitting_clusters(widths, i, width, target) + 1),
        ) > target,
    decreases widths.len() - i,
{
    if i < widths.len() {
        assert(widths.take(i + 1).drop_last() == widths.take(i));
        if width + widths[i] <= target {
            lemma_fitting(widths, i + 1, width + widths[i], target);
        }
    }
}

/// What is kept of a cut text leaves room for the mark, and one group more would not.
pub proof fn law_cut_text_fits_tightly(widths: Seq<usize>, budget: int)
    requires
        budget > 0,
    ensures
        0 <= fitting_clusters(widths, 0, 0, budget - 1) <= widths.len(),
        total_width(widths.take(fitting_clusters(widths, 0, 0, budget - 1))) + 1 <= budget,
        fitting_clusters(widths, 0, 0, budget - 1) < widths.len() ==> total_width(
            widths.take(fitting_clusters(widths, 0, 0, budget - 1) + 1),
        ) + 1 > budget,
{
    assert(widths.take(0).len() == 0);
    lemma_fitting(widths, 0, 0, budget - 1);
}

/// Padding a text that takes no more columns than there are adds just the missing ones.
pub proof fn law_padding_fills_the_columns(text: Seq<char>, taken: int, width: int)
    requires
        0 <= taken <= width,
    ensures
        padded(text, taken, width).len() == text.len() + (width - taken),
        padded(text, taken, width).take(text.len() as int) == text,
{
    assert(padded(text, taken, width).take(text.len() as int) =~= text);
}

/// A filled text is the fitted text with nothing but spaces behind it.
pub proof fn law_only_spaces_are_filled_in(text: Seq<char>, width: int)
    ensures
        filled(text, width).len() >= truncated(text, width).len(),
        filled(text, width).take(truncated(text, width).len() as int) == truncated(text, width),
        forall|i: int|
            truncated(text, width).len() <= i < filled(text, width).len() ==> #[trigger] filled(
                text,
                width,
            )[i] == ' ',
{
    let fitted = truncated(text, width);
    assert(filled(text, width).take(fitted.len() as int) =~= fitted);
}

/// A text that takes just the columns it was filled up to is filled up already.
pub proof fn law_filling_again_changes_nothing(text: Seq<char>, width: int)
    requires
        columns(filled(text, width)) == width,
    ensures
        filled(filled(text, width), width) == filled(text, width),
{
    assert(filled(filled(text, width), width) =~= filled(text, width));
}

/// A text that fits is shown whole. One that does not is cut behind one of its clusters, as late as it
/// can be, and ends in an ellipsis; without any room nothing is shown.
pub proof fn law_only_long_texts_are_cut(text: Seq<char>, budget: int)
    requires
        budget >= 0,
    ensures
        columns(text) <= budget ==> truncated(text, budget) == text,
        columns(text) > budget && budget == 0 ==> truncated(text, budget) == Seq::<char>::empty(),
        columns(text) > budget && budget > 0 ==> exists|n: int|
            0 <= n <= grapheme_clusters(text).len() && truncated(text, budget) == concatenated(
                #[trigger] grapheme_clusters(text).take(n),
            ).push('…') && total_width(widths_of(grapheme_clusters(text)).take(n)) < budget && (n
                < grapheme_clusters(text).len() ==> total_width(
                widths_of(grapheme_clusters(text)).take(n + 1),
            ) >= budget),
{
    if columns(text) > budget && budget > 0 {
        let clusters = grapheme_clusters(text);
        let widths = widths_of(clusters);
        law_cut_text_fits_tightly(widths, budget);
        let n = fitting_clusters(widths, 0, 0, budget - 1);
        assert(truncated(text, budget) == concatenated(clusters.take(n)).push('…'));
    }
}

} // verus!
