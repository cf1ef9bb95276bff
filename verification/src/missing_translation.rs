//! `missing_translation`: a key absent from an `i18n/*.toml` catalog; and
//! `orphan_translation`: a catalog key that no code uses.

use crate::diagnostics;
use crate::diagnostics::{Diagnostic, DiagnosticView};
use crate::hir::{Hir, KeySpace, Span, TextKey};
use crate::lint::Lint;
use crate::rows;
use crate::rows::{Row, RowView};
use crate::text;
use vstd::prelude::*;

verus! {

/// The top-level keys of a TOML document, in the order in which its table holds
/// them; nothing where the text is no TOML.
pub uninterp spec fn toml_keys(source: Seq<char>) -> Option<Seq<Seq<char>>>;

/// `toml::from_str::<toml::Table>`, and `Map::keys` of the table: the top-level
/// keys of the document, each once, or nothing where the parser reports an error.
/// Which keys those are is the TOML grammar's to say; they depend on the text
/// alone.
#[verifier::external_body]
pub(crate) fn read_keys(source: &str) -> (r: Option<Vec<String>>)
    ensures
        match r {
            Some(keys) => toml_keys(source@) == Some(text::texts(keys@)) && text::texts(
                keys@,
            ).no_duplicates(),
            None => toml_keys(source@) is None,
        },
{
    match toml::from_str::<toml::Table>(source) {
        Ok(table) => Some(table.keys().cloned().collect()),
        Err(_) => None,
    }
}

/// A key as `text!` emits it: `{#` rewritten to `{`.
pub open spec fn as_format(key: Seq<char>) -> Seq<char> {
    text::replaced(key, "{#"@, "{"@)
}

pub open spec fn as_formats(keys: Seq<Seq<char>>) -> Seq<Seq<char>> {
    keys.map_values(|key: Seq<char>| as_format(key))
}

/// One `i18n/<locale>.toml` catalog.
#[derive(Debug)]
pub struct Catalog {
    /// The file name, such as `en.toml`.
    pub file: String,
    /// Top-level keys verbatim: the space `Text::localized` keys compare in.
    pub raw: Vec<String>,
    /// The same with `{#` rewritten to `{`: the space `text!` keys compare in.
    pub format: Vec<String>,
}

/// What a catalog says.
pub ghost struct CatalogView {
    pub file: Seq<char>,
    pub keys: Seq<Seq<char>>,
}

impl View for Catalog {
    type V = CatalogView;

    open spec fn view(&self) -> CatalogView {
        CatalogView { file: self.file@, keys: text::texts(self.raw@) }
    }
}

pub open spec fn catalog_views(catalogs: Seq<Catalog>) -> Seq<CatalogView> {
    catalogs.map_values(|catalog: Catalog| catalog@)
}

impl CatalogView {
    /// The catalog carries the key.
    pub open spec fn carries(self, key: Seq<char>, space: KeySpace) -> bool {
        match space {
            KeySpace::Catalog => self.keys.contains(key),
            KeySpace::Format => as_formats(self.keys).contains(key),
        }
    }
}

fn contains_text(list: &Vec<String>, key: &str) -> (r: bool)
    ensures
        r == text::texts(list@).contains(key@),
{
    let mut i: usize = 0;
    while i < list.len()
        invariant
            i <= list.len(),
            forall|k: int| 0 <= k < i ==> (#[trigger] list@[k])@ != key@,
        decreases list.len() - i,
    {
        if text::str_eq(list[i].as_str(), key) {
            assert(text::texts(list@)[i as int] == key@);
            return true;
        }
        i = i + 1;
    }
    proof {
        if text::texts(list@).contains(key@) {
            let k = choose|k: int| 0 <= k < list@.len() && text::texts(list@)[k] == key@;
            assert(list@[k]@ != key@);
        }
    }
    false
}

fn formats_of(keys: &Vec<String>) -> (r: Vec<String>)
    ensures
        text::texts(r@) == as_formats(text::texts(keys@)),
{
    let mut out: Vec<String> = Vec::new();
    let mut i: usize = 0;
    while i < keys.len()
        invariant
            i <= keys.len(),
            out.len() == i,
            forall|k: int| 0 <= k < i ==> (#[trigger] out@[k])@ == as_format(keys@[k]@),
        decreases keys.len() - i,
    {
        proof {
            reveal_strlit("{#");
        }
        out.push(text::replace(keys[i].as_str(), "{#", "{"));
        i = i + 1;
    }
    proof {
        assert(text::texts(out@) =~= as_formats(text::texts(keys@)));
    }
    out
}

impl Catalog {
    /// The rewritten keys are those of the catalog.
    pub open spec fn wf(self) -> bool {
        text::texts(self.format@) == as_formats(text::texts(self.raw@))
    }

    /// The catalog of a file with these top-level keys.
    pub fn new(file: &str, raw: Vec<String>) -> (r: Catalog)
        ensures
            r.wf(),
            r@ == (CatalogView { file: file@, keys: text::texts(raw@) }),
    {
        let format: Vec<String> = formats_of(&raw);
        Catalog { file: file.to_owned(), raw, format }
    }

    /// Whether this catalog carries the key, compared in the key's own space.
    pub fn contains(&self, key: &str, space: KeySpace) -> (r: bool)
        requires
            self.wf(),
        ensures
            r == self@.carries(key@, space),
    {
        match space {
            KeySpace::Catalog => contains_text(&self.raw, key),
            KeySpace::Format => contains_text(&self.format, key),
        }
    }
}

/// The catalog that a TOML text makes up.
pub open spec fn catalog_of(file: Seq<char>, source: Seq<char>) -> Option<CatalogView> {
    match toml_keys(source) {
        Some(keys) => Some(CatalogView { file, keys }),
        None => None,
    }
}

/// Reads a catalog from its text: every top-level key is a translation key
/// whether its value is a string or a plural table. Nothing where the text does
/// not parse: a file the crate could never have compiled with.
pub fn read_catalog(file: &str, source: &str) -> (r: Option<Catalog>)
    ensures
        match r {
            Some(catalog) => catalog.wf() && catalog_of(file@, source@) == Some(catalog@),
            None => catalog_of(file@, source@) is None,
        },
{
    match read_keys(source) {
        Some(keys) => Some(Catalog::new(file, keys)),
        None => None,
    }
}

/// The collected keys, each with the place of its first occurrence.
#[derive(Debug)]
pub struct MissingTranslation {
    pub used: Vec<TextKey>,
}

/// What a key says.
pub ghost struct KeyView {
    pub text: Seq<char>,
    pub space: KeySpace,
    pub span: Span,
}

impl View for TextKey {
    type V = KeyView;

    open spec fn view(&self) -> KeyView {
        KeyView { text: self.text@, space: self.space, span: self.span }
    }
}

pub open spec fn key_views(keys: Seq<TextKey>) -> Seq<KeyView> {
    keys.map_values(|key: TextKey| key@)
}

/// The key is among the collected ones.
pub open spec fn collected(used: Seq<KeyView>, text: Seq<char>, space: KeySpace) -> bool {
    exists|i: int| 0 <= i < used.len() && (#[trigger] used[i]).text == text && used[i].space == space
}

/// No key is collected twice.
pub open spec fn collected_once(used: Seq<KeyView>) -> bool {
    forall|i: int, j: int|
        0 <= i < j < used.len() ==> (#[trigger] used[i]).text != (#[trigger] used[j]).text
            || used[i].space != used[j].space
}

/// The keys collected once an expression has been looked at.
pub open spec fn used_after(hir: Hir, used: Seq<KeyView>, n: usize) -> Seq<KeyView> {
    match hir.node(n).text_key {
        Some(key) => if collected(used, key@.text, key@.space) {
            used
        } else {
            used.push(key@)
        },
        None => used,
    }
}

/// Collecting keys keeps each once, under the place where it came first.
pub proof fn keys_are_collected_once(hir: Hir, used: Seq<KeyView>, n: usize)
    requires
        collected_once(used),
    ensures
        collected_once(used_after(hir, used, n)),
        forall|i: int| 0 <= i < used.len() ==> #[trigger] used_after(hir, used, n)[i] == used[i],
{
    let after = used_after(hir, used, n);
    assert forall|i: int, j: int| 0 <= i < j < after.len() implies (#[trigger] after[i]).text != (
    #[trigger] after[j]).text || after[i].space != after[j].space by {
        if j < used.len() {
            assert(used[i].text != used[j].text || used[i].space != used[j].space);
        } else {
            assert(after[i] == used[i]);
        }
    }
}

/// The key of every expression that has one is collected, and no other is added.
pub proof fn every_key_is_collected(hir: Hir, used: Seq<KeyView>, n: usize, key: KeyView)
    ensures
        hir.node(n).text_key matches Some(found) ==> collected(
            used_after(hir, used, n),
            found.text@,
            found.space,
        ),
        used_after(hir, used, n).contains(key) ==> used.contains(key) || (hir.node(
            n,
        ).text_key matches Some(found) && key.text == found.text@ && key.space == found.space
            && key.span == found.span),
{
    let after = used_after(hir, used, n);
    if let Some(found) = hir.node(n).text_key {
        if !collected(used, found@.text, found@.space) {
            assert(after[used.len() as int] == found@);
        }
    }
    if after.contains(key) {
        let i = choose|i: int| 0 <= i < after.len() && after[i] == key;
        if i < used.len() {
            assert(used[i] == key);
        }
    }
}

/// Some code uses the catalog key.
pub open spec fn key_used(used: Seq<KeyView>, key: Seq<char>) -> bool {
    collected(used, key, KeySpace::Catalog) || collected(used, as_format(key), KeySpace::Format)
}

/// The files of those of the first `n` catalogs that lack the key, quoted.
pub open spec fn lacking(catalogs: Seq<CatalogView>, key: KeyView, n: int) -> Seq<Seq<char>>
    decreases n,
{
    if n <= 0 {
        seq![]
    } else {
        let rest = lacking(catalogs, key, n - 1);
        if catalogs[n - 1].carries(key.text, key.space) {
            rest
        } else {
            rest.push("`"@ + catalogs[n - 1].file + "`"@)
        }
    }
}

/// The files that lack the key, quoted.
pub open spec fn files_lacking(catalogs: Seq<CatalogView>, key: KeyView) -> Seq<Seq<char>> {
    lacking(catalogs, key, catalogs.len() as int)
}

/// A row for each of the first `n` keys that a catalog lacks.
pub open spec fn missing_rows(catalogs: Seq<CatalogView>, used: Seq<KeyView>, n: int) -> Seq<RowView>
    decreases n,
{
    if n <= 0 {
        seq![]
    } else {
        let rest = missing_rows(catalogs, used, n - 1);
        let key = used[n - 1];
        if files_lacking(catalogs, key).len() > 0 {
            rest.push(
                RowView {
                    lo: key.span.lo,
                    first: key.text,
                    second: ""@,
                    index: (n - 1) as usize,
                },
            )
        } else {
            rest
        }
    }
}

/// Both lints' help text.
pub open spec fn help() -> Seq<char> {
    "`water doctor` checks the catalogs against each other; this lint checks them against the code"@
}

/// What is said of a missing key.
pub open spec fn missing_finding(catalogs: Seq<CatalogView>, key: KeyView) -> DiagnosticView {
    DiagnosticView::with_help(
        Lint::MissingTranslation,
        key.span,
        "`"@ + key.text + "` has no translation in "@ + text::joined(
            files_lacking(catalogs, key),
            ", "@,
        ),
        help(),
    )
}

/// What is said of the missing keys.
pub open spec fn missing_findings(catalogs: Seq<CatalogView>, used: Seq<KeyView>) -> Seq<
    DiagnosticView,
> {
    rows::in_order(missing_rows(catalogs, used, used.len() as int)).map_values(
        |row: RowView| missing_finding(catalogs, used[row.index as int]),
    )
}

/// A row for each of the first `n` keys of a catalog that no code uses.
pub open spec fn catalog_orphans(catalog: CatalogView, used: Seq<KeyView>, n: int) -> Seq<RowView>
    decreases n,
{
    if n <= 0 {
        seq![]
    } else {
        let rest = catalog_orphans(catalog, used, n - 1);
        if key_used(used, catalog.keys[n - 1]) {
            rest
        } else {
            rest.push(
                RowView { lo: 0, first: catalog.file, second: catalog.keys[n - 1], index: 0 },
            )
        }
    }
}

/// The rows of the first `n` catalogs.
pub open spec fn orphan_rows(catalogs: Seq<CatalogView>, used: Seq<KeyView>, n: int) -> Seq<RowView>
    decreases n,
{
    if n <= 0 {
        seq![]
    } else {
        orphan_rows(catalogs, used, n - 1) + catalog_orphans(
            catalogs[n - 1],
            used,
            catalogs[n - 1].keys.len() as int,
        )
    }
}

/// What is said of an orphan.
pub open spec fn orphan_finding(root: Span, row: RowView) -> DiagnosticView {
    DiagnosticView::with_help(
        Lint::OrphanTranslation,
        root,
        "`"@ + row.second + "` in `i18n/"@ + row.first
            + "` is not used by any `text!` or `Text::localized` in this crate"@,
        help(),
    )
}

/// What is said of the orphans.
pub open spec fn orphan_findings(root: Span, catalogs: Seq<CatalogView>, used: Seq<KeyView>) -> Seq<
    DiagnosticView,
> {
    rows::in_order(orphan_rows(catalogs, used, catalogs.len() as int)).map_values(
        |row: RowView| orphan_finding(root, row),
    )
}

/// A row for each of the first `n` catalogs.
pub open spec fn file_rows(catalogs: Seq<CatalogView>, n: int) -> Seq<RowView>
    decreases n,
{
    if n <= 0 {
        seq![]
    } else {
        file_rows(catalogs, n - 1).push(
            RowView {
                lo: 0,
                first: catalogs[n - 1].file,
                second: ""@,
                index: (n - 1) as usize,
            },
        )
    }
}

/// The places of the catalogs, by file name.
pub open spec fn by_file(catalogs: Seq<CatalogView>) -> Seq<RowView> {
    rows::in_order(file_rows(catalogs, catalogs.len() as int))
}

/// The catalogs by file name.
pub open spec fn sorted_catalogs(catalogs: Seq<CatalogView>) -> Seq<CatalogView> {
    by_file(catalogs).map_values(|row: RowView| catalogs[row.index as int])
}

proof fn lemma_file_rows(catalogs: Seq<CatalogView>, n: int)
    requires
        0 <= n <= catalogs.len(),
        catalogs.len() <= usize::MAX,
    ensures
        forall|i: int|
            0 <= i < file_rows(catalogs, n).len() ==> (#[trigger] file_rows(
                catalogs,
                n,
            )[i]).index < catalogs.len(),
    decreases n,
{
    if n > 0 {
        lemma_file_rows(catalogs, n - 1);
        let rest = file_rows(catalogs, n - 1);
        let all = file_rows(catalogs, n);
        assert forall|i: int| 0 <= i < all.len() implies (#[trigger] all[i]).index
            < catalogs.len() by {
            if i < rest.len() {
                assert(all[i] == rest[i]);
            }
        }
    }
}

proof fn lemma_missing_rows(catalogs: Seq<CatalogView>, used: Seq<KeyView>, n: int)
    requires
        0 <= n <= used.len(),
        used.len() <= usize::MAX,
    ensures
        forall|i: int|
            0 <= i < missing_rows(catalogs, used, n).len() ==> (#[trigger] missing_rows(
                catalogs,
                used,
                n,
            )[i]).index < used.len(),
    decreases n,
{
    if n > 0 {
        lemma_missing_rows(catalogs, used, n - 1);
        let rest = missing_rows(catalogs, used, n - 1);
        let all = missing_rows(catalogs, used, n);
        assert forall|i: int| 0 <= i < all.len() implies (#[trigger] all[i]).index
            < used.len() by {
            if i < rest.len() {
                assert(all[i] == rest[i]);
            }
        }
    }
}

/// What holds of every row holds of every row in order.
proof fn lemma_in_order_index(list: Seq<RowView>, bound: int)
    requires
        forall|i: int| 0 <= i < list.len() ==> (#[trigger] list[i]).index < bound,
    ensures
        forall|i: int|
            0 <= i < rows::in_order(list).len() ==> (#[trigger] rows::in_order(list)[i]).index
                < bound,
{
    broadcast use vstd::seq_lib::group_to_multiset_ensures;

    rows::ordering_sorts(list);
    let sorted = rows::in_order(list);
    assert forall|i: int| 0 <= i < sorted.len() implies (#[trigger] sorted[i]).index < bound by {
        assert(sorted.contains(sorted[i]));
        assert(sorted.to_multiset().count(sorted[i]) > 0);
        assert(list.contains(sorted[i]));
    }
}

fn push_row(list: &mut Vec<Row>, row: Row)
    ensures
        rows::row_views(final(list)@) == rows::row_views(old(list)@).push(row@),
{
    let ghost before = list@;
    list.push(row);
    proof {
        assert(rows::row_views(list@) =~= rows::row_views(before).push(row@));
    }
}

/// Orders catalogs by file name, so that diagnostics are deterministic: the
/// places of the catalogs in that order.
pub fn catalog_order(catalogs: &Vec<Catalog>) -> (r: Vec<usize>)
    ensures
        r@.len() == by_file(catalog_views(catalogs@)).len(),
        forall|i: int|
            0 <= i < r@.len() ==> #[trigger] r@[i] < catalogs@.len() && r@[i] == by_file(
                catalog_views(catalogs@),
            )[i].index,
{
    let ghost views = catalog_views(catalogs@);
    let mut list: Vec<Row> = Vec::new();
    let mut i: usize = 0;
    proof {
        assert(rows::row_views(list@) =~= seq![]);
    }
    while i < catalogs.len()
        invariant
            i <= catalogs.len(),
            views == catalog_views(catalogs@),
            rows::row_views(list@) == file_rows(views, i as int),
        decreases catalogs.len() - i,
    {
        assert(views[i as int] == catalogs@[i as int]@);
        push_row(
            &mut list,
            Row { lo: 0, first: catalogs[i].file.clone(), second: "".to_owned(), index: i },
        );
        i = i + 1;
    }
    proof {
        lemma_file_rows(views, views.len() as int);
        lemma_in_order_index(file_rows(views, views.len() as int), views.len() as int);
    }
    let sorted: Vec<Row> = rows::order_rows(list);
    let ghost order = rows::row_views(sorted@);
    let mut out: Vec<usize> = Vec::new();
    let mut k: usize = 0;
    while k < sorted.len()
        invariant
            k <= sorted.len(),
            order == rows::row_views(sorted@),
            forall|j: int| 0 <= j < order.len() ==> (#[trigger] order[j]).index < catalogs@.len(),
            out.len() == k,
            forall|j: int| 0 <= j < k ==> #[trigger] out@[j] < catalogs@.len() && out@[j]
                == order[j].index,
        decreases sorted.len() - k,
    {
        assert(order[k as int] == sorted@[k as int]@);
        out.push(sorted[k].index);
        k = k + 1;
    }
    out
}

/// Every catalog is well-formed.
pub open spec fn all_wf(catalogs: Seq<Catalog>) -> bool {
    forall|i: int| 0 <= i < catalogs.len() ==> (#[trigger] catalogs[i]).wf()
}

/// The catalogs at the places of `order`.
pub open spec fn at_places(catalogs: Seq<CatalogView>, order: Seq<usize>) -> Seq<CatalogView> {
    order.map_values(|i: usize| catalogs[i as int])
}

/// The places are those of catalogs.
pub open spec fn places_fit(catalogs: Seq<Catalog>, order: Seq<usize>) -> bool {
    forall|i: int| 0 <= i < order.len() ==> #[trigger] order[i] < catalogs.len()
}

impl MissingTranslation {
    /// Nothing collected.
    pub fn new() -> (r: MissingTranslation)
        ensures
            key_views(r.used@).len() == 0,
            collected_once(key_views(r.used@)),
    {
        MissingTranslation { used: Vec::new() }
    }

    fn has_key(&self, text: &str, space: KeySpace) -> (r: bool)
        ensures
            r == collected(key_views(self.used@), text@, space),
    {
        let ghost views = key_views(self.used@);
        let mut i: usize = 0;
        while i < self.used.len()
            invariant
                i <= self.used.len(),
                views == key_views(self.used@),
                forall|k: int|
                    0 <= k < i ==> !((#[trigger] views[k]).text == text@ && views[k].space
                        == space),
            decreases self.used.len() - i,
        {
            assert(views[i as int] == self.used@[i as int]@);
            if self.used[i].space == space && text::str_eq(self.used[i].text.as_str(), text) {
                return true;
            }
            i = i + 1;
        }
        false
    }

    /// Collects the key that the expression names, unless it is known already.
    pub fn check_expr(&mut self, hir: &Hir, n: usize)
        requires
            hir.has(n),
        ensures
            key_views(final(self).used@) == used_after(*hir, key_views(old(self).used@), n),
    {
        if let Some(key) = &hir.nodes[n].text_key {
            if !self.has_key(key.text.as_str(), key.space) {
                let ghost before = self.used@;
                let added: TextKey = TextKey {
                    text: key.text.clone(),
                    space: key.space,
                    span: key.span,
                };
                self.used.push(added);
                proof {
                    assert(added@ == key@);
                    assert(key_views(self.used@) =~= key_views(before).push(key@));
                }
            }
        }
    }

    /// Whether any collected source literal uses the catalog key.
    pub fn uses(&self, key: &str) -> (r: bool)
        ensures
            r == key_used(key_views(self.used@), key@),
    {
        if self.has_key(key, KeySpace::Catalog) {
            return true;
        }
        proof {
            reveal_strlit("{#");
        }
        let format: String = text::replace(key, "{#", "{");
        self.has_key(format.as_str(), KeySpace::Format)
    }

    fn files_without(catalogs: &Vec<Catalog>, order: &Vec<usize>, key: &TextKey) -> (r: Vec<String>)
        requires
            all_wf(catalogs@),
            places_fit(catalogs@, order@),
        ensures
            text::texts(r@) == files_lacking(
                at_places(catalog_views(catalogs@), order@),
                key@,
            ),
    {
        let ghost views = at_places(catalog_views(catalogs@), order@);
        let mut out: Vec<String> = Vec::new();
        let mut i: usize = 0;
        proof {
            assert(text::texts(out@) =~= seq![]);
        }
        while i < order.len()
            invariant
                i <= order.len(),
                all_wf(catalogs@),
                places_fit(catalogs@, order@),
                views == at_places(catalog_views(catalogs@), order@),
                text::texts(out@) == lacking(views, key@, i as int),
            decreases order.len() - i,
        {
            assert(order@[i as int] < catalogs@.len());
            assert(views[i as int] == catalogs@[order@[i as int] as int]@);
            let catalog: &Catalog = &catalogs[order[i]];
            if !catalog.contains(key.text.as_str(), key.space) {
                let ghost before = out@;
                let file: String = text::cat3("`", catalog.file.as_str(), "`");
                out.push(file);
                proof {
                    assert(text::texts(out@) =~= text::texts(before).push(file@));
                }
            }
            i = i + 1;
        }
        out
    }

    fn missing(&self, catalogs: &Vec<Catalog>, order: &Vec<usize>, out: &mut Vec<Diagnostic>)
        requires
            all_wf(catalogs@),
            places_fit(catalogs@, order@),
        ensures
            diagnostics::found_all(final(out)@) == diagnostics::found_all(old(out)@)
                + missing_findings(
                at_places(catalog_views(catalogs@), order@),
                key_views(self.used@),
            ),
    {
        let ghost views = at_places(catalog_views(catalogs@), order@);
        let ghost used = key_views(self.used@);
        let mut list: Vec<Row> = Vec::new();
        let mut i: usize = 0;
        proof {
            assert(rows::row_views(list@) =~= seq![]);
        }
        while i < self.used.len()
            invariant
                i <= self.used.len(),
                all_wf(catalogs@),
                places_fit(catalogs@, order@),
                views == at_places(catalog_views(catalogs@), order@),
                used == key_views(self.used@),
                rows::row_views(list@) == missing_rows(views, used, i as int),
            decreases self.used.len() - i,
        {
            assert(used[i as int] == self.used@[i as int]@);
            let key: &TextKey = &self.used[i];
            let files: Vec<String> = MissingTranslation::files_without(catalogs, order, key);
            proof {
                assert(text::texts(files@).len() == files@.len());
            }
            if files.len() > 0 {
                push_row(
                    &mut list,
                    Row {
                        lo: key.span.lo,
                        first: key.text.clone(),
                        second: "".to_owned(),
                        index: i,
                    },
                );
            }
            i = i + 1;
        }
        proof {
            lemma_missing_rows(views, used, used.len() as int);
            lemma_in_order_index(missing_rows(views, used, used.len() as int), used.len() as int);
        }
        let sorted: Vec<Row> = rows::order_rows(list);
        let ghost order_view = rows::row_views(sorted@);
        let ghost all = missing_findings(views, used);
        let ghost before = diagnostics::found_all(out@);
        let mut k: usize = 0;
        proof {
            assert(before =~= before + all.take(0));
        }
        while k < sorted.len()
            invariant
                k <= sorted.len(),
                all_wf(catalogs@),
                places_fit(catalogs@, order@),
                views == at_places(catalog_views(catalogs@), order@),
                used == key_views(self.used@),
                order_view == rows::row_views(sorted@),
                all == order_view.map_values(
                    |row: RowView| missing_finding(views, used[row.index as int]),
                ),
                forall|j: int| 0 <= j < order_view.len() ==> (#[trigger] order_view[j]).index
                    < used.len(),
                diagnostics::found_all(out@) == before + all.take(k as int),
            decreases sorted.len() - k,
        {
            assert(order_view[k as int] == sorted@[k as int]@);
            let index: usize = sorted[k].index;
            assert(used[index as int] == self.used@[index as int]@);
            let key: &TextKey = &self.used[index];
            let files: Vec<String> = MissingTranslation::files_without(catalogs, order, key);
            let list: String = text::join(&files, ", ");
            let found: Diagnostic = Diagnostic::with_help(
                Lint::MissingTranslation,
                key.span,
                text::cat4(
                    "`",
                    key.text.as_str(),
                    "` has no translation in ",
                    list.as_str(),
                ).as_str(),
                "`water doctor` checks the catalogs against each other; this lint checks them against the code".to_owned(),
            );
            let ghost said = found@;
            let ghost prior = diagnostics::found_all(out@);
            diagnostics::push_found(out, Some(found));
            proof {
                assert(said == all[k as int]);
                assert(all.take(k + 1) =~= all.take(k as int).push(said));
                assert(prior + seq![said] =~= before + all.take(k + 1));
            }
            k = k + 1;
        }
        proof {
            assert(all.take(all.len() as int) =~= all);
        }
    }

    fn push_orphans(&self, catalog: &Catalog, list: &mut Vec<Row>)
        ensures
            rows::row_views(final(list)@) == rows::row_views(old(list)@) + catalog_orphans(
                catalog@,
                key_views(self.used@),
                catalog@.keys.len() as int,
            ),
    {
        let ghost before = rows::row_views(list@);
        let ghost used = key_views(self.used@);
        let mut i: usize = 0;
        proof {
            assert(before =~= before + catalog_orphans(catalog@, used, 0));
        }
        while i < catalog.raw.len()
            invariant
                i <= catalog.raw.len(),
                used == key_views(self.used@),
                rows::row_views(list@) == before + catalog_orphans(catalog@, used, i as int),
            decreases catalog.raw.len() - i,
        {
            assert(catalog@.keys[i as int] == catalog.raw@[i as int]@);
            if !self.uses(catalog.raw[i].as_str()) {
                let ghost prior = rows::row_views(list@);
                let row: Row = Row {
                    lo: 0,
                    first: catalog.file.clone(),
                    second: catalog.raw[i].clone(),
                    index: 0,
                };
                let ghost added = row@;
                push_row(list, row);
                proof {
                    assert(prior.push(added) =~= before + catalog_orphans(
                        catalog@,
                        used,
                        i as int,
                    ).push(added));
                }
            }
            i = i + 1;
        }
    }

    fn orphans(
        &self,
        catalogs: &Vec<Catalog>,
        order: &Vec<usize>,
        root: Span,
        out: &mut Vec<Diagnostic>,
    )
        requires
            places_fit(catalogs@, order@),
        ensures
            diagnostics::found_all(final(out)@) == diagnostics::found_all(old(out)@)
                + orphan_findings(
                root,
                at_places(catalog_views(catalogs@), order@),
                key_views(self.used@),
            ),
    {
        let ghost views = at_places(catalog_views(catalogs@), order@);
        let ghost used = key_views(self.used@);
        let mut list: Vec<Row> = Vec::new();
        let mut i: usize = 0;
        proof {
            assert(rows::row_views(list@) =~= seq![]);
        }
        while i < order.len()
            invariant
                i <= order.len(),
                places_fit(catalogs@, order@),
                views == at_places(catalog_views(catalogs@), order@),
                used == key_views(self.used@),
                rows::row_views(list@) == orphan_rows(views, used, i as int),
            decreases order.len() - i,
        {
            assert(order@[i as int] < catalogs@.len());
            assert(views[i as int] == catalogs@[order@[i as int] as int]@);
            self.push_orphans(&catalogs[order[i]], &mut list);
            i = i + 1;
        }
        let sorted: Vec<Row> = rows::order_rows(list);
        let ghost order_view = rows::row_views(sorted@);
        let ghost all = orphan_findings(root, views, used);
        let ghost before = diagnostics::found_all(out@);
        let mut k: usize = 0;
        proof {
            assert(before =~= before + all.take(0));
        }
        while k < sorted.len()
            invariant
                k <= sorted.len(),
                order_view == rows::row_views(sorted@),
                all == order_view.map_values(|row: RowView| orphan_finding(root, row)),
                diagnostics::found_all(out@) == before + all.take(k as int),
            decreases sorted.len() - k,
        {
            assert(order_view[k as int] == sorted@[k as int]@);
            let found: Diagnostic = Diagnostic::with_help(
                Lint::OrphanTranslation,
                root,
                text::cat5(
                    "`",
                    sorted[k].second.as_str(),
                    "` in `i18n/",
                    sorted[k].first.as_str(),
                    "` is not used by any `text!` or `Text::localized` in this crate",
                ).as_str(),
                "`water doctor` checks the catalogs against each other; this lint checks them against the code".to_owned(),
            );
            let ghost said = found@;
            let ghost prior = diagnostics::found_all(out@);
            diagnostics::push_found(out, Some(found));
            proof {
                assert(said == all[k as int]);
                assert(all.take(k + 1) =~= all.take(k as int).push(said));
                assert(prior + seq![said] =~= before + all.take(k + 1));
            }
            k = k + 1;
        }
        proof {
            assert(all.take(all.len() as int) =~= all);
        }
    }

    /// Compares the collected keys against the catalogs: a key absent from one or
    /// more catalogs is reported where it first occurs, in source order; a
    /// catalog key that nothing uses is reported on the crate root, by file and
    /// key. Without catalogs both stay silent.
    pub fn check_crate_post(&self, catalogs: &Vec<Catalog>, root: Span) -> (r: Vec<Diagnostic>)
        requires
            all_wf(catalogs@),
        ensures
            diagnostics::found_all(r@) == findings(
                root,
                catalog_views(catalogs@),
                key_views(self.used@),
            ),
    {
        let mut out: Vec<Diagnostic> = Vec::new();
        proof {
            assert(diagnostics::found_all(out@) =~= seq![]);
            assert(catalog_views(catalogs@).len() == catalogs@.len());
        }
        if catalogs.len() == 0 {
            return out;
        }
        let order: Vec<usize> = catalog_order(catalogs);
        let ghost views = catalog_views(catalogs@);
        proof {
            assert(at_places(views, order@) =~= sorted_catalogs(views));
        }
        self.missing(catalogs, &order, &mut out);
        self.orphans(catalogs, &order, root, &mut out);
        proof {
            let sorted = sorted_catalogs(views);
            let used = key_views(self.used@);
            assert(diagnostics::found_all(out@) =~= missing_findings(sorted, used)
                + orphan_findings(root, sorted, used));
        }
        out
    }
}

/// What is said of a crate with these catalogs and keys.
pub open spec fn findings(root: Span, catalogs: Seq<CatalogView>, used: Seq<KeyView>) -> Seq<
    DiagnosticView,
> {
    if catalogs.len() == 0 {
        seq![]
    } else {
        let sorted = sorted_catalogs(catalogs);
        missing_findings(sorted, used) + orphan_findings(root, sorted, used)
    }
}

proof fn lemma_in_order_contains(list: Seq<RowView>, row: RowView)
    ensures
        rows::in_order(list).contains(row) <==> list.contains(row),
{
    broadcast use vstd::seq_lib::group_to_multiset_ensures;

    rows::ordering_sorts(list);
    assert(rows::in_order(list).to_multiset().count(row) == list.to_multiset().count(row));
}

proof fn lemma_sorted_has(catalogs: Seq<CatalogView>, c: int, n: int)
    requires
        0 <= c < n <= catalogs.len(),
    ensures
        file_rows(catalogs, n).contains(
            RowView { lo: 0, first: catalogs[c].file, second: ""@, index: c as usize },
        ),
    decreases n,
{
    let rows = file_rows(catalogs, n);
    if c == n - 1 {
        assert(rows[rows.len() - 1].index == c as usize);
        assert(rows.contains(rows[rows.len() - 1]));
    } else {
        lemma_sorted_has(catalogs, c, n - 1);
        let rest = file_rows(catalogs, n - 1);
        let row = RowView { lo: 0, first: catalogs[c].file, second: ""@, index: c as usize };
        let i = choose|i: int| 0 <= i < rest.len() && rest[i] == row;
        assert(rows[i] == row);
    }
}

/// Ordering the catalogs by file name loses none of them and adds none.
pub proof fn ordered_catalogs_are_the_same(catalogs: Seq<CatalogView>, catalog: CatalogView)
    requires
        catalogs.len() <= usize::MAX,
    ensures
        sorted_catalogs(catalogs).contains(catalog) <==> catalogs.contains(catalog),
{
    let all = file_rows(catalogs, catalogs.len() as int);
    let sorted = sorted_catalogs(catalogs);
    if catalogs.contains(catalog) {
        let c = choose|c: int| 0 <= c < catalogs.len() && catalogs[c] == catalog;
        let row = RowView { lo: 0, first: catalogs[c].file, second: ""@, index: c as usize };
        lemma_sorted_has(catalogs, c, catalogs.len() as int);
        lemma_in_order_contains(all, row);
        let i = choose|i: int| 0 <= i < by_file(catalogs).len() && by_file(catalogs)[i] == row;
        assert(sorted[i] == catalog);
    }
    if sorted.contains(catalog) {
        let i = choose|i: int| 0 <= i < sorted.len() && sorted[i] == catalog;
        lemma_file_rows(catalogs, catalogs.len() as int);
        lemma_in_order_index(all, catalogs.len() as int);
        let c = by_file(catalogs)[i].index;
        assert(catalogs[c as int] == catalog);
    }
}

/// The key is carried by every one of the catalogs.
pub open spec fn translated(catalogs: Seq<CatalogView>, key: KeyView) -> bool {
    forall|c: int|
        0 <= c < catalogs.len() ==> (#[trigger] catalogs[c]).carries(key.text, key.space)
}

proof fn lemma_lacking(catalogs: Seq<CatalogView>, key: KeyView, n: int)
    requires
        0 <= n <= catalogs.len(),
    ensures
        lacking(catalogs, key, n).len() == 0 <==> forall|c: int|
            0 <= c < n ==> (#[trigger] catalogs[c]).carries(key.text, key.space),
    decreases n,
{
    if n > 0 {
        lemma_lacking(catalogs, key, n - 1);
    }
}

proof fn lemma_missing_row(catalogs: Seq<CatalogView>, used: Seq<KeyView>, i: int, n: int)
    requires
        0 <= i < n <= used.len(),
        files_lacking(catalogs, used[i]).len() > 0,
    ensures
        missing_rows(catalogs, used, n).contains(
            RowView { lo: used[i].span.lo, first: used[i].text, second: ""@, index: i as usize },
        ),
    decreases n,
{
    let rows = missing_rows(catalogs, used, n);
    let row = RowView {
        lo: used[i].span.lo,
        first: used[i].text,
        second: ""@,
        index: i as usize,
    };
    if i == n - 1 {
        assert(rows[rows.len() - 1] == row);
    } else {
        lemma_missing_row(catalogs, used, i, n - 1);
        let rest = missing_rows(catalogs, used, n - 1);
        let k = choose|k: int| 0 <= k < rest.len() && rest[k] == row;
        assert(rows[k] == row);
    }
}

proof fn lemma_missing_row_lacks(
    catalogs: Seq<CatalogView>,
    used: Seq<KeyView>,
    row: RowView,
    n: int,
)
    requires
        0 <= n <= used.len() <= usize::MAX,
        missing_rows(catalogs, used, n).contains(row),
    ensures
        row.index < used.len(),
        files_lacking(catalogs, used[row.index as int]).len() > 0,
    decreases n,
{
    if n > 0 {
        let rows = missing_rows(catalogs, used, n);
        let rest = missing_rows(catalogs, used, n - 1);
        let k = choose|k: int| 0 <= k < rows.len() && rows[k] == row;
        if k < rest.len() {
            assert(rest[k] == row);
            lemma_missing_row_lacks(catalogs, used, row, n - 1);
        }
    }
}

/// A key in use that some catalog lacks is reported, with the files that lack
/// it; and whatever is reported as missing is the report of such a key.
pub proof fn untranslated_keys_are_reported(
    catalogs: Seq<CatalogView>,
    used: Seq<KeyView>,
    i: int,
    finding: DiagnosticView,
)
    requires
        0 <= i < used.len() <= usize::MAX,
    ensures
        !translated(catalogs, used[i]) ==> missing_findings(catalogs, used).contains(
            missing_finding(catalogs, used[i]),
        ),
        missing_findings(catalogs, used).contains(finding) ==> exists|k: int|
            0 <= k < used.len() && !translated(catalogs, #[trigger] used[k]) && finding
                == missing_finding(catalogs, used[k]),
{
    let n = used.len() as int;
    let all = missing_rows(catalogs, used, n);
    let sorted = rows::in_order(all);
    let found = missing_findings(catalogs, used);
    lemma_lacking(catalogs, used[i], catalogs.len() as int);
    if !translated(catalogs, used[i]) {
        let row = RowView {
            lo: used[i].span.lo,
            first: used[i].text,
            second: ""@,
            index: i as usize,
        };
        lemma_missing_row(catalogs, used, i, n);
        lemma_in_order_contains(all, row);
        let k = choose|k: int| 0 <= k < sorted.len() && sorted[k] == row;
        assert(found[k] == missing_finding(catalogs, used[i]));
    }
    if found.contains(finding) {
        let k = choose|k: int| 0 <= k < found.len() && found[k] == finding;
        let row = sorted[k];
        lemma_in_order_contains(all, row);
        assert(sorted.contains(row));
        lemma_missing_row_lacks(catalogs, used, row, n);
        lemma_lacking(catalogs, used[row.index as int], catalogs.len() as int);
    }
}

proof fn lemma_catalog_orphan(catalog: CatalogView, used: Seq<KeyView>, row: RowView, n: int)
    requires
        0 <= n <= catalog.keys.len(),
    ensures
        catalog_orphans(catalog, used, n).contains(row) <==> exists|k: int|
            0 <= k < n && !key_used(used, #[trigger] catalog.keys[k]) && row == (RowView {
                lo: 0,
                first: catalog.file,
                second: catalog.keys[k],
                index: 0,
            }),
    decreases n,
{
    if n > 0 {
        lemma_catalog_orphan(catalog, used, row, n - 1);
        let rows = catalog_orphans(catalog, used, n);
        let rest = catalog_orphans(catalog, used, n - 1);
        if rest.contains(row) {
            let k = choose|k: int| 0 <= k < rest.len() && rest[k] == row;
            assert(rows[k] == row);
        }
        if rows.contains(row) && !rest.contains(row) {
            let k = choose|k: int| 0 <= k < rows.len() && rows[k] == row;
            if k < rest.len() {
                assert(rest[k] == row);
            }
            assert(catalog.keys[n - 1] == row.second);
        }
        if !key_used(used, catalog.keys[n - 1]) {
            assert(rows[rows.len() - 1] == (RowView {
                lo: 0,
                first: catalog.file,
                second: catalog.keys[n - 1],
                index: 0,
            }));
        }
    } else {
        assert(catalog_orphans(catalog, used, n) =~= seq![]);
    }
}

proof fn lemma_orphan_row(catalogs: Seq<CatalogView>, used: Seq<KeyView>, row: RowView, n: int)
    requires
        0 <= n <= catalogs.len(),
    ensures
        orphan_rows(catalogs, used, n).contains(row) <==> exists|c: int|
            0 <= c < n && catalog_orphans(
                #[trigger] catalogs[c],
                used,
                catalogs[c].keys.len() as int,
            ).contains(row),
    decreases n,
{
    if n > 0 {
        lemma_orphan_row(catalogs, used, row, n - 1);
        let rest = orphan_rows(catalogs, used, n - 1);
        let own = catalog_orphans(catalogs[n - 1], used, catalogs[n - 1].keys.len() as int);
        let rows = orphan_rows(catalogs, used, n);
        if rows.contains(row) {
            let k = choose|k: int| 0 <= k < rows.len() && rows[k] == row;
            if k < rest.len() {
                assert(rest[k] == row);
            } else {
                assert(own[k - rest.len()] == row);
            }
        }
        if rest.contains(row) {
            let k = choose|k: int| 0 <= k < rest.len() && rest[k] == row;
            assert(rows[k] == row);
        }
        if own.contains(row) {
            let k = choose|k: int| 0 <= k < own.len() && own[k] == row;
            assert(rows[rest.len() + k] == row);
        }
    } else {
        assert(orphan_rows(catalogs, used, n) =~= seq![]);
    }
}

/// A catalog key that no code uses is reported, with its file; one that code
/// uses is not.
pub proof fn unused_keys_are_reported(
    catalogs: Seq<CatalogView>,
    used: Seq<KeyView>,
    root: Span,
    row: RowView,
)
    ensures
        rows::in_order(orphan_rows(catalogs, used, catalogs.len() as int)).contains(row) <==> exists|
            c: int,
            k: int,
        |
            {
                &&& 0 <= c < catalogs.len()
                &&& 0 <= k < catalogs[c].keys.len()
                &&& !key_used(used, #[trigger] catalogs[c].keys[k])
                &&& row == (RowView {
                    lo: 0,
                    first: catalogs[c].file,
                    second: catalogs[c].keys[k],
                    index: 0,
                })
            },
        rows::in_order(orphan_rows(catalogs, used, catalogs.len() as int)).contains(row)
            ==> orphan_findings(root, catalogs, used).contains(orphan_finding(root, row)),
{
    let n = catalogs.len() as int;
    let all = orphan_rows(catalogs, used, n);
    let sorted = rows::in_order(all);
    lemma_in_order_contains(all, row);
    lemma_orphan_row(catalogs, used, row, n);
    if sorted.contains(row) {
        let i = choose|i: int| 0 <= i < sorted.len() && sorted[i] == row;
        assert(orphan_findings(root, catalogs, used)[i] == orphan_finding(root, row));
        let c = choose|c: int|
            0 <= c < n && catalog_orphans(
                #[trigger] catalogs[c],
                used,
                catalogs[c].keys.len() as int,
            ).contains(row);
        lemma_catalog_orphan(catalogs[c], used, row, catalogs[c].keys.len() as int);
        let k = choose|k: int|
            0 <= k < catalogs[c].keys.len() && !key_used(used, #[trigger] catalogs[c].keys[k])
                && row == (RowView {
                lo: 0,
                first: catalogs[c].file,
                second: catalogs[c].keys[k],
                index: 0,
            });
        assert(!key_used(used, catalogs[c].keys[k]));
    }
    if exists|c: int, k: int|
        {
            &&& 0 <= c < catalogs.len()
            &&& 0 <= k < catalogs[c].keys.len()
            &&& !key_used(used, #[trigger] catalogs[c].keys[k])
            &&& row == (RowView {
                lo: 0,
                first: catalogs[c].file,
                second: catalogs[c].keys[k],
                index: 0,
            })
        } {
        let (c, k) = choose|c: int, k: int|
            {
                &&& 0 <= c < catalogs.len()
                &&& 0 <= k < catalogs[c].keys.len()
                &&& !key_used(used, #[trigger] catalogs[c].keys[k])
                &&& row == (RowView {
                    lo: 0,
                    first: catalogs[c].file,
                    second: catalogs[c].keys[k],
                    index: 0,
                })
            };
        lemma_catalog_orphan(catalogs[c], used, row, catalogs[c].keys.len() as int);
        assert(catalog_orphans(
            catalogs[c],
            used,
            catalogs[c].keys.len() as int,
        ).contains(row));
    }
}

/// A catalog key with each `{#` read as `{`, from its first character on.
pub open spec fn unmarked(key: Seq<char>) -> Seq<char>
    decreases key.len(),
{
    if key.len() == 0 {
        key
    } else if key.len() >= 2 && key[0] == '{' && key[1] == '#' {
        seq!['{'] + unmarked(key.skip(2))
    } else {
        seq![key[0]] + unmarked(key.skip(1))
    }
}

/// How code that keys in the space names the translation under a catalog key.
pub open spec fn called_in(key: Seq<char>, space: KeySpace) -> Seq<char> {
    match space {
        KeySpace::Catalog => key,
        KeySpace::Format => unmarked(key),
    }
}

proof fn lemma_unmarked(key: Seq<char>, i: int)
    requires
        0 <= i <= key.len(),
    ensures
        text::replaced_from(key, "{#"@, "{"@, i) == unmarked(key.skip(i)),
    decreases key.len() - i,
{
    reveal_strlit("{#");
    reveal_strlit("{");
    let part = "{#"@;
    let with = "{"@;
    text::lemma_first_at(key, part, i);
    if i == key.len() {
        assert(key.skip(i) =~= seq![]);
        assert(!text::stands_at(key, part, i));
        assert(text::first_at(key, part, i + 1) is None);
    } else if text::stands_at(key, part, i) {
        assert(key.subrange(i, i + 2)[0] == '{' && key.subrange(i, i + 2)[1] == '#');
        lemma_unmarked(key, i + 2);
        assert(key.skip(i).skip(2) =~= key.skip(i + 2));
        assert(key.subrange(i, i) + with =~= seq!['{']);
    } else {
        if i + 2 <= key.len() && key[i] == '{' && key[i + 1] == '#' {
            assert(key.subrange(i, i + 2) =~= part);
        }
        lemma_unmarked(key, i + 1);
        assert(key.skip(i).skip(1) =~= key.skip(i + 1));
        text::lemma_first_at(key, part, i + 1);
        match text::first_at(key, part, i) {
            Some(k) => {
                assert(key.subrange(i, k) =~= seq![key[i]] + key.subrange(i + 1, k));
                assert(text::replaced_from(key, part, with, i) =~= seq![key[i]]
                    + text::replaced_from(key, part, with, i + 1));
            },
            None => {
                assert(key.skip(i) =~= seq![key[i]] + key.skip(i + 1));
            },
        }
    }
}

/// A catalog carries a key exactly where the code that uses it calls one of the
/// catalog's own keys so; an empty catalog carries none.
pub proof fn catalogs_carry_their_own_keys(catalog: CatalogView, key: Seq<char>, space: KeySpace)
    ensures
        catalog.carries(key, space) <==> exists|k: int|
            0 <= k < catalog.keys.len() && called_in(#[trigger] catalog.keys[k], space) == key,
        catalog.keys.len() == 0 ==> !catalog.carries(key, space),
{
    let formats = as_formats(catalog.keys);
    assert forall|k: int| 0 <= k < catalog.keys.len() implies #[trigger] formats[k] == unmarked(
        catalog.keys[k],
    ) by {
        lemma_unmarked(catalog.keys[k], 0);
        assert(catalog.keys[k].skip(0) =~= catalog.keys[k]);
    }
    if catalog.carries(key, space) {
        match space {
            KeySpace::Catalog => {},
            KeySpace::Format => {
                let k = choose|k: int| 0 <= k < formats.len() && formats[k] == key;
                assert(called_in(catalog.keys[k], space) == key);
            },
        }
    }
    if exists|k: int|
        0 <= k < catalog.keys.len() && called_in(#[trigger] catalog.keys[k], space) == key {
        let k = choose|k: int|
            0 <= k < catalog.keys.len() && called_in(#[trigger] catalog.keys[k], space) == key;
        assert(formats[k] == unmarked(catalog.keys[k]));
    }
}

/// No key of the catalog is what the code calls so.
pub open spec fn unknown_to(catalog: CatalogView, key: KeyView) -> bool {
    forall|k: int|
        0 <= k < catalog.keys.len() ==> called_in(#[trigger] catalog.keys[k], key.space) != key.text
}

/// The message that a key has no translation in these files.
pub open spec fn names_files(finding: DiagnosticView, key: KeyView, files: Seq<Seq<char>>) -> bool {
    finding.lint == Lint::MissingTranslation && finding.span == key.span && finding.message == "`"@
        + key.text + "` has no translation in "@ + text::joined(files, ", "@)
}

/// The files are those of the catalogs that do not know the key, quoted.
pub open spec fn files_without(
    catalogs: Seq<CatalogView>,
    key: KeyView,
    files: Seq<Seq<char>>,
) -> bool {
    forall|file: Seq<char>| #[trigger]
        files.contains(file) <==> exists|c: int|
            0 <= c < catalogs.len() && unknown_to(#[trigger] catalogs[c], key) && file == "`"@
                + catalogs[c].file + "`"@
}

proof fn lemma_files_without(catalogs: Seq<CatalogView>, key: KeyView, n: int)
    requires
        0 <= n <= catalogs.len(),
    ensures
        files_without(catalogs.take(n), key, lacking(catalogs, key, n)),
    decreases n,
{
    let files = lacking(catalogs, key, n);
    let some = catalogs.take(n);
    if n > 0 {
        lemma_files_without(catalogs, key, n - 1);
        let rest = lacking(catalogs, key, n - 1);
        let fewer = catalogs.take(n - 1);
        let last = catalogs[n - 1];
        catalogs_carry_their_own_keys(last, key.text, key.space);
        assert forall|file: Seq<char>| #[trigger] files.contains(file) <==> exists|c: int|
            0 <= c < some.len() && unknown_to(#[trigger] some[c], key) && file == "`"@
                + some[c].file + "`"@ by {
            assert(some[n - 1] == last);
            if files.contains(file) {
                let i = choose|i: int| 0 <= i < files.len() && files[i] == file;
                if i < rest.len() {
                    assert(rest[i] == file);
                    assert(rest.contains(file));
                    let c = choose|c: int|
                        0 <= c < fewer.len() && unknown_to(#[trigger] fewer[c], key) && file == "`"@
                            + fewer[c].file + "`"@;
                    assert(some[c] == fewer[c]);
                }
            }
            if exists|c: int|
                0 <= c < some.len() && unknown_to(#[trigger] some[c], key) && file == "`"@
                    + some[c].file + "`"@ {
                let c = choose|c: int|
                    0 <= c < some.len() && unknown_to(#[trigger] some[c], key) && file == "`"@
                        + some[c].file + "`"@;
                if c < n - 1 {
                    assert(some[c] == fewer[c]);
                    assert(rest.contains(file));
                    let i = choose|i: int| 0 <= i < rest.len() && rest[i] == file;
                    assert(files[i] == file);
                } else {
                    assert(files[files.len() - 1] == file);
                }
            }
        }
    }
}

/// A key in use that is not what the code calls any key of some catalog is
/// reported where it is used, with the names of just the catalogs that do not
/// know it.
pub proof fn unknown_keys_are_reported(
    root: Span,
    catalogs: Seq<CatalogView>,
    used: Seq<KeyView>,
    i: int,
    c: int,
) -> (r: (DiagnosticView, Seq<Seq<char>>))
    requires
        0 <= i < used.len() <= usize::MAX,
        0 <= c < catalogs.len() <= usize::MAX,
        unknown_to(catalogs[c], used[i]),
    ensures
        findings(root, catalogs, used).contains(r.0),
        names_files(r.0, used[i], r.1),
        files_without(catalogs, used[i], r.1),
        r.1.contains("`"@ + catalogs[c].file + "`"@),
{
    let key = used[i];
    let sorted = sorted_catalogs(catalogs);
    let files = files_lacking(sorted, key);
    let finding = missing_finding(sorted, key);
    lemma_files_without(sorted, key, sorted.len() as int);
    assert(sorted.take(sorted.len() as int) =~= sorted);
    ordered_catalogs_are_the_same(catalogs, catalogs[c]);
    assert(catalogs.contains(catalogs[c]));
    let at = choose|at: int| 0 <= at < sorted.len() && sorted[at] == catalogs[c];
    assert forall|file: Seq<char>| #[trigger] files.contains(file) <==> exists|c: int|
        0 <= c < catalogs.len() && unknown_to(#[trigger] catalogs[c], key) && file == "`"@
            + catalogs[c].file + "`"@ by {
        if files.contains(file) {
            let k = choose|k: int|
                0 <= k < sorted.len() && unknown_to(#[trigger] sorted[k], key) && file == "`"@
                    + sorted[k].file + "`"@;
            ordered_catalogs_are_the_same(catalogs, sorted[k]);
            assert(sorted.contains(sorted[k]));
            let d = choose|d: int| 0 <= d < catalogs.len() && catalogs[d] == sorted[k];
            assert(unknown_to(catalogs[d], key));
        }
        if exists|c: int|
            0 <= c < catalogs.len() && unknown_to(#[trigger] catalogs[c], key) && file == "`"@
                + catalogs[c].file + "`"@ {
            let d = choose|c: int|
                0 <= c < catalogs.len() && unknown_to(#[trigger] catalogs[c], key) && file == "`"@
                    + catalogs[c].file + "`"@;
            ordered_catalogs_are_the_same(catalogs, catalogs[d]);
            assert(catalogs.contains(catalogs[d]));
            let k = choose|k: int| 0 <= k < sorted.len() && sorted[k] == catalogs[d];
            assert(unknown_to(sorted[k], key));
        }
    }
    assert(unknown_to(sorted[at], key));
    assert(files.contains("`"@ + catalogs[c].file + "`"@));
    catalogs_carry_their_own_keys(sorted[at], key.text, key.space);
    untranslated_keys_are_reported(sorted, used, i, finding);
    assert(!translated(sorted, key));
    let found = missing_findings(sorted, used);
    let k = choose|k: int| 0 <= k < found.len() && found[k] == finding;
    assert(findings(root, catalogs, used)[k] == finding);
    (finding, files)
}

/// A catalog key is reported as unused exactly where no collected key is what the
/// code calls it, and the report names the key and its file.
pub proof fn uncalled_keys_are_reported(
    root: Span,
    catalogs: Seq<CatalogView>,
    used: Seq<KeyView>,
    c: int,
    k: int,
) -> (finding: DiagnosticView)
    requires
        0 <= c < catalogs.len() <= usize::MAX,
        0 <= k < catalogs[c].keys.len(),
    ensures
        finding.lint == Lint::OrphanTranslation,
        finding.message == "`"@ + catalogs[c].keys[k] + "` in `i18n/"@ + catalogs[c].file
            + "` is not used by any `text!` or `Text::localized` in this crate"@,
        (forall|u: int|
            0 <= u < used.len() ==> (#[trigger] used[u]).text != called_in(
                catalogs[c].keys[k],
                used[u].space,
            )) ==> findings(root, catalogs, used).contains(finding),
        key_used(used, catalogs[c].keys[k]) <==> exists|u: int|
            0 <= u < used.len() && (#[trigger] used[u]).text == called_in(
                catalogs[c].keys[k],
                used[u].space,
            ),
{
    let key = catalogs[c].keys[k];
    let sorted = sorted_catalogs(catalogs);
    let row = RowView { lo: 0, first: catalogs[c].file, second: key, index: 0 };
    let finding = orphan_finding(root, row);
    lemma_unmarked(key, 0);
    assert(key.skip(0) =~= key);
    if exists|u: int|
        0 <= u < used.len() && (#[trigger] used[u]).text == called_in(key, used[u].space) {
        let u = choose|u: int|
            0 <= u < used.len() && (#[trigger] used[u]).text == called_in(key, used[u].space);
        match used[u].space {
            KeySpace::Catalog => {
                assert(collected(used, key, KeySpace::Catalog));
            },
            KeySpace::Format => {
                assert(collected(used, as_format(key), KeySpace::Format));
            },
        }
    } else {
        ordered_catalogs_are_the_same(catalogs, catalogs[c]);
        assert(catalogs.contains(catalogs[c]));
        let at = choose|at: int| 0 <= at < sorted.len() && sorted[at] == catalogs[c];
        assert(sorted[at].keys[k] == key);
        assert(!key_used(used, key));
        unused_keys_are_reported(sorted, used, root, row);
        let found = orphan_findings(root, sorted, used);
        let before = missing_findings(sorted, used);
        let i = choose|i: int| 0 <= i < found.len() && found[i] == finding;
        assert(findings(root, catalogs, used)[before.len() + i] == finding);
    }
    finding
}

} // verus!
