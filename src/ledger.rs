//! Classification of an event's sales into ledger lines.
//!
//! Either the event's net sales go on one line, or each product with a nonzero
//! total goes on a line of its own, with the cost center of the first pattern
//! that matches its name and the VAT code of its tax rate. A line for the fees
//! always follows.

use vstd::prelude::*;
use vstd::string::*;
use crate::config::{ExactCostCenterCode, PretixEventConfig, RegexPattern, VatCode};
use crate::pretix::ExportResponseSaleItem;
use crate::totals::EventSummary;

verus! {

#[verifier::external_type_specification]
#[verifier::external_body]
pub struct ExRegex(regex::Regex);

#[verifier::external_type_specification]
#[verifier::external_body]
pub struct ExRegexError(regex::Error);

/// The pattern is a valid regular expression.
pub uninterp spec fn regex_compiles(pattern: Seq<char>) -> bool;

/// The expression compiled from the pattern matches somewhere in the text.
pub uninterp spec fn regex_matches(pattern: Seq<char>, text: Seq<char>) -> bool;

/// Relies on regex::Regex::new: whether a pattern compiles depends on the
/// pattern alone.
#[verifier::external_body]
fn compile_regex(pattern: &str) -> (r: Result<regex::Regex, regex::Error>)
    ensures
        r is Ok <==> regex_compiles(pattern@),
{
    regex::Regex::new(pattern)
}

/// A regular expression, with the pattern it was compiled from.
pub struct CompiledPattern {
    source: String,
    regex: regex::Regex,
}

impl View for CompiledPattern {
    type V = Seq<char>;

    closed spec fn view(&self) -> Seq<char> {
        self.source@
    }
}

impl CompiledPattern {
    /// Compiles a pattern; `None` when it is not a valid expression.
    pub fn compile(pattern: &str) -> (r: Option<CompiledPattern>)
        ensures
            r is Some <==> regex_compiles(pattern@),
            r matches Some(p) ==> p@ == pattern@,
    {
        match compile_regex(pattern) {
            Ok(regex) => Some(CompiledPattern { source: String::from_str(pattern), regex }),
            Err(_) => None,
        }
    }

    /// Relies on regex::Regex::is_match: whether the expression compiled from
    /// this pattern matches somewhere in `text`, which depends on the pattern
    /// and the text alone.
    #[verifier::external_body]
    pub(crate) fn is_match(&self, text: &str) -> (r: bool)
        ensures
            r == regex_matches(self@, text@),
    {
        self.regex.is_match(text)
    }
}

// ---------------------------------------------------------------- first match

/// Index of the first `true`.
pub open spec fn first_true(bs: Seq<bool>) -> Option<int>
    decreases bs.len(),
{
    if bs.len() == 0 {
        None
    } else {
        match first_true(bs.drop_last()) {
            Some(i) => Some(i),
            None => if bs.last() {
                Some(bs.len() - 1)
            } else {
                None
            },
        }
    }
}

proof fn lemma_first_true_prefix(bs: Seq<bool>, k: int)
    requires
        0 <= k <= bs.len(),
        first_true(bs.take(k)) is Some,
    ensures
        first_true(bs) == first_true(bs.take(k)),
    decreases bs.len(),
{
    if k == bs.len() {
        assert(bs.take(k) =~= bs);
    } else {
        assert(bs.drop_last().take(k) =~= bs.take(k));
        lemma_first_true_prefix(bs.drop_last(), k);
    }
}

proof fn lemma_first_true_facts(bs: Seq<bool>)
    ensures
        first_true(bs) matches Some(i) ==> 0 <= i < bs.len() && bs[i],
        first_true(bs) is None <==> !bs.contains(true),
    decreases bs.len(),
{
    if bs.len() > 0 {
        lemma_first_true_facts(bs.drop_last());
        if first_true(bs.drop_last()) is None && !bs.last() {
            assert forall|i: int| 0 <= i < bs.len() implies !bs[i] by {
                if i < bs.len() - 1 {
                    assert(bs[i] == bs.drop_last()[i]);
                }
            }
        }
        if bs.drop_last().contains(true) {
            let i = choose|i: int| 0 <= i < bs.drop_last().len() && bs.drop_last()[i] == true;
            assert(bs[i]);
        }
        if bs.last() {
            assert(bs[bs.len() - 1]);
        }
    }
}

/// Position of the first `true`.
pub fn first_match(matches: &Vec<bool>) -> (r: Option<usize>)
    ensures
        r matches Some(i) ==> first_true(matches@) == Some(i as int),
        r is None ==> first_true(matches@) is None,
{
    let mut i: usize = 0;
    while i < matches.len()
        invariant
            i <= matches.len(),
            first_true(matches@.take(i as int)) is None,
        decreases matches.len() - i,
    {
        let ghost prefix = matches@.take(i as int + 1);
        assert(prefix.drop_last() =~= matches@.take(i as int));
        if matches[i] {
            proof {
                lemma_first_true_prefix(matches@, i as int + 1);
            }
            return Some(i);
        }
        i = i + 1;
    }
    assert(matches@.take(i as int) =~= matches@);
    None
}

/// Whether any entry is `true`.
pub fn any_match(matches: &Vec<bool>) -> (r: bool)
    ensures
        r == matches@.contains(true),
{
    proof {
        lemma_first_true_facts(matches@);
    }
    first_match(matches).is_some()
}

// ---------------------------------------------------------------- lines

/// One line to book.
#[derive(Debug)]
pub struct LedgerLine {
    pub gl_account: String,
    pub cost_center: Option<String>,
    pub vat_code: Option<String>,
    pub description: String,
    /// Cents.
    pub amount: i64,
}

pub struct LedgerLineView {
    pub gl_account: Seq<char>,
    pub cost_center: Option<Seq<char>>,
    pub vat_code: Option<Seq<char>>,
    pub description: Seq<char>,
    pub amount: i64,
}

pub open spec fn text_view(s: Option<String>) -> Option<Seq<char>> {
    match s {
        Some(t) => Some(t@),
        None => None,
    }
}

impl View for LedgerLine {
    type V = LedgerLineView;

    open spec fn view(&self) -> LedgerLineView {
        LedgerLineView {
            gl_account: self.gl_account@,
            cost_center: text_view(self.cost_center),
            vat_code: text_view(self.vat_code),
            description: self.description@,
            amount: self.amount,
        }
    }
}

/// Why an event's sales could not be classified.
#[derive(Debug)]
pub enum ClassifyError {
    /// A configured pattern is not a valid regular expression.
    InvalidPattern { pattern: String },
    /// The event is booked on one line but has no VAT code configured.
    MissingVatCode,
    /// No cost center pattern matches the product.
    UnmatchedProduct { product: String },
    /// The event's catalog has no product of this name.
    UnknownSaleItem { product: String },
    /// No VAT code is configured for the product's tax rate.
    UnmatchedVatRate { product: String, rate: i64 },
}

pub enum ClassifyErrorView {
    InvalidPattern(Seq<char>),
    MissingVatCode,
    UnmatchedProduct(Seq<char>),
    UnknownSaleItem(Seq<char>),
    UnmatchedVatRate(Seq<char>, i64),
}

impl View for ClassifyError {
    type V = ClassifyErrorView;

    open spec fn view(&self) -> ClassifyErrorView {
        match self {
            ClassifyError::InvalidPattern { pattern } => ClassifyErrorView::InvalidPattern(pattern@),
            ClassifyError::MissingVatCode => ClassifyErrorView::MissingVatCode,
            ClassifyError::UnmatchedProduct { product } => ClassifyErrorView::UnmatchedProduct(
                product@,
            ),
            ClassifyError::UnknownSaleItem { product } => ClassifyErrorView::UnknownSaleItem(
                product@,
            ),
            ClassifyError::UnmatchedVatRate { product, rate } => ClassifyErrorView::UnmatchedVatRate(
                product@,
                *rate,
            ),
        }
    }
}

pub open spec fn line_view(r: Result<Option<LedgerLine>, ClassifyError>) -> Result<
    Option<LedgerLineView>,
    ClassifyErrorView,
> {
    match r {
        Ok(Some(l)) => Ok(Some(l@)),
        Ok(None) => Ok(None),
        Err(e) => Err(e@),
    }
}

pub open spec fn lines_view(r: Result<Vec<LedgerLine>, ClassifyError>) -> Result<
    Seq<LedgerLineView>,
    ClassifyErrorView,
> {
    match r {
        Ok(v) => Ok(v@.map_values(|l: LedgerLine| l@)),
        Err(e) => Err(e@),
    }
}

/// `Pretix <event>`.
pub open spec fn line_name(event: Seq<char>) -> Seq<char> {
    "Pretix "@ + event
}

/// `Pretix <event> | <product>`.
pub open spec fn product_line_name(event: Seq<char>, product: Seq<char>) -> Seq<char> {
    line_name(event) + " | "@ + product
}

/// `Pretix <event> | Transactiekosten`.
pub open spec fn fee_line_name(event: Seq<char>) -> Seq<char> {
    line_name(event) + " | Transactiekosten"@
}

/// Index of the first catalog product with the given name.
pub open spec fn sale_item_by_name(items: Seq<ExportResponseSaleItem>, name: Seq<char>) -> Option<
    int,
> {
    first_true(Seq::new(items.len(), |i: int| items[i].name@ == name))
}

/// Index of the first VAT code for the given rate.
pub open spec fn vat_code_for_rate(codes: Seq<VatCode>, rate: i64) -> Option<int> {
    first_true(Seq::new(codes.len(), |i: int| codes[i].percentage == rate))
}

/// What one product contributes: nothing when its total is zero or it is
/// ignored, else a line with the cost center of the first matching pattern and
/// the VAT code of its catalog tax rate, or the first of these that is missing.
pub open spec fn product_outcome(
    event: Seq<char>,
    product: Seq<char>,
    amount: i64,
    ignored: bool,
    cost_center_matches: Seq<bool>,
    cost_center_ids: Seq<String>,
    sale_items: Seq<ExportResponseSaleItem>,
    vat_codes: Seq<VatCode>,
    gl_account: Seq<char>,
) -> Result<Option<LedgerLineView>, ClassifyErrorView> {
    if amount == 0 || ignored {
        Ok(None)
    } else {
        match first_true(cost_center_matches) {
            None => Err(ClassifyErrorView::UnmatchedProduct(product)),
            Some(c) => match sale_item_by_name(sale_items, product) {
                None => Err(ClassifyErrorView::UnknownSaleItem(product)),
                Some(s) => match vat_code_for_rate(vat_codes, sale_items[s].tax_rate) {
                    None => Err(ClassifyErrorView::UnmatchedVatRate(product, sale_items[s].tax_rate)),
                    Some(v) => Ok(
                        Some(
                            LedgerLineView {
                                gl_account,
                                cost_center: Some(cost_center_ids[c]@),
                                vat_code: Some(vat_codes[v].code@),
                                description: product_line_name(event, product),
                                amount,
                            },
                        ),
                    ),
                },
            },
        }
    }
}

/// Builds `Pretix <event>`.
fn make_line_name(event: &str) -> (r: String)
    ensures
        r@ == line_name(event@),
{
    let mut r = String::from_str("Pretix ");
    r.append(event);
    r
}

/// Position of the first catalog product with the given name.
fn find_sale_item_by_name(items: &Vec<ExportResponseSaleItem>, name: &str) -> (r: Option<usize>)
    ensures
        r matches Some(i) ==> sale_item_by_name(items@, name@) == Some(i as int),
        r is None ==> sale_item_by_name(items@, name@) is None,
{
    let target = String::from_str(name);
    let mut found: Vec<bool> = Vec::new();
    let mut i: usize = 0;
    while i < items.len()
        invariant
            i <= items.len(),
            target@ == name@,
            found@ =~= Seq::new(i as nat, |h: int| items@[h].name@ == name@),
        decreases items.len() - i,
    {
        found.push(items[i].name == target);
        i = i + 1;
    }
    first_match(&found)
}

/// Position of the first VAT code for the given rate.
fn find_vat_code(codes: &Vec<VatCode>, rate: i64) -> (r: Option<usize>)
    ensures
        r matches Some(i) ==> vat_code_for_rate(codes@, rate) == Some(i as int),
        r is None ==> vat_code_for_rate(codes@, rate) is None,
{
    let mut found: Vec<bool> = Vec::new();
    let mut i: usize = 0;
    while i < codes.len()
        invariant
            i <= codes.len(),
            found@ =~= Seq::new(i as nat, |h: int| codes@[h].percentage == rate),
        decreases codes.len() - i,
    {
        found.push(codes[i].percentage == rate);
        i = i + 1;
    }
    first_match(&found)
}

/// The line of one product, given whether it is ignored and which cost center
/// patterns match its name.
pub fn product_line(
    event: &str,
    product: &str,
    amount: i64,
    ignored: bool,
    cost_center_matches: &Vec<bool>,
    cost_center_ids: &Vec<String>,
    sale_items: &Vec<ExportResponseSaleItem>,
    vat_codes: &Vec<VatCode>,
    gl_account: &str,
) -> (r: Result<Option<LedgerLine>, ClassifyError>)
    requires
        cost_center_matches@.len() == cost_center_ids@.len(),
    ensures
        line_view(r) == product_outcome(
            event@,
            product@,
            amount,
            ignored,
            cost_center_matches@,
            cost_center_ids@,
            sale_items@,
            vat_codes@,
            gl_account@,
        ),
{
    if amount == 0 || ignored {
        return Ok(None);
    }
    proof {
        lemma_first_true_facts(cost_center_matches@);
    }
    let c = match first_match(cost_center_matches) {
        Some(c) => c,
        None => {
            return Err(ClassifyError::UnmatchedProduct { product: String::from_str(product) });
        },
    };
    let s = match find_sale_item_by_name(sale_items, product) {
        Some(s) => s,
        None => {
            return Err(ClassifyError::UnknownSaleItem { product: String::from_str(product) });
        },
    };
    proof {
        lemma_first_true_facts(Seq::new(sale_items@.len(), |i: int| sale_items@[i].name@ == product@));
    }
    let rate = sale_items[s].tax_rate;
    let v = match find_vat_code(vat_codes, rate) {
        Some(v) => v,
        None => {
            return Err(
                ClassifyError::UnmatchedVatRate { product: String::from_str(product), rate },
            );
        },
    };
    proof {
        lemma_first_true_facts(Seq::new(vat_codes@.len(), |i: int| vat_codes@[i].percentage == rate));
    }
    let mut description = make_line_name(event);
    description.append(" | ");
    description.append(product);
    Ok(
        Some(
            LedgerLine {
                gl_account: String::from_str(gl_account),
                cost_center: Some(cost_center_ids[c].clone()),
                vat_code: Some(vat_codes[v].code.clone()),
                description,
                amount,
            },
        ),
    )
}


// ---------------------------------------------------------------- events

/// Index of the first pattern that is not a valid expression.
pub open spec fn first_invalid(patterns: Seq<RegexPattern>) -> Option<int> {
    first_true(Seq::new(patterns.len(), |i: int| !regex_compiles(patterns[i].0@)))
}

/// The patterns of the cost center table, in order.
pub open spec fn cost_center_patterns(
    table: Seq<(RegexPattern, ExactCostCenterCode)>,
) -> Seq<RegexPattern> {
    table.map_values(|entry: (RegexPattern, ExactCostCenterCode)| entry.0)
}

/// Which patterns of the list match the text.
pub open spec fn pattern_matches(patterns: Seq<RegexPattern>, text: Seq<char>) -> Seq<bool> {
    Seq::new(patterns.len(), |i: int| regex_matches(patterns[i].0@, text))
}

/// The lines of the products, in order, or the first product's failure.
pub open spec fn product_lines_outcome(
    event: Seq<char>,
    items: Seq<(String, i64)>,
    config: PretixEventConfig,
    cost_center_ids: Seq<String>,
    sale_items: Seq<ExportResponseSaleItem>,
    vat_codes: Seq<VatCode>,
    gl_account: Seq<char>,
) -> Result<Seq<LedgerLineView>, ClassifyErrorView>
    decreases items.len(),
{
    if items.len() == 0 {
        Ok(Seq::empty())
    } else {
        match product_lines_outcome(
            event,
            items.drop_last(),
            config,
            cost_center_ids,
            sale_items,
            vat_codes,
            gl_account,
        ) {
            Err(e) => Err(e),
            Ok(lines) => {
                let product = items.last().0@;
                match product_outcome(
                    event,
                    product,
                    items.last().1,
                    pattern_matches(config.ignore_products@, product).contains(true),
                    pattern_matches(cost_center_patterns(config.cost_centers_per_product@), product),
                    cost_center_ids,
                    sale_items,
                    vat_codes,
                    gl_account,
                ) {
                    Err(e) => Err(e),
                    Ok(None) => Ok(lines),
                    Ok(Some(line)) => Ok(lines.push(line)),
                }
            },
        }
    }
}

/// The lines of an event: an invalid cost center pattern fails first; then,
/// when products are split, an invalid ignore pattern or the first failing
/// product; else a missing VAT code. The fee line comes last.
pub open spec fn ledger_outcome(
    summary: EventSummary,
    config: PretixEventConfig,
    vat_codes: Seq<VatCode>,
    gl_account: Seq<char>,
    cost_center_ids: Seq<String>,
    fee_gl_account: Seq<char>,
) -> Result<Seq<LedgerLineView>, ClassifyErrorView> {
    let event = summary.event_name@;
    let fee_line = LedgerLineView {
        gl_account: fee_gl_account,
        cost_center: None,
        vat_code: None,
        description: fee_line_name(event),
        amount: summary.totals.fees,
    };
    let cc = cost_center_patterns(config.cost_centers_per_product@);
    match first_invalid(cc) {
        Some(i) => Err(ClassifyErrorView::InvalidPattern(cc[i].0@)),
        None => if config.split_per_product {
            match first_invalid(config.ignore_products@) {
                Some(i) => Err(ClassifyErrorView::InvalidPattern(config.ignore_products@[i].0@)),
                None => match product_lines_outcome(
                    event,
                    summary.items@,
                    config,
                    cost_center_ids,
                    summary.sale_items@,
                    vat_codes,
                    gl_account,
                ) {
                    Err(e) => Err(e),
                    Ok(lines) => Ok(lines.push(fee_line)),
                },
            }
        } else {
            match config.vat_code {
                None => Err(ClassifyErrorView::MissingVatCode),
                Some(v) => Ok(
                    seq![
                        LedgerLineView {
                            gl_account,
                            cost_center: None,
                            vat_code: Some(v@),
                            description: line_name(event),
                            amount: summary.totals.value,
                        },
                        fee_line,
                    ],
                ),
            }
        },
    }
}

proof fn lemma_product_lines_err_prefix(
    event: Seq<char>,
    items: Seq<(String, i64)>,
    config: PretixEventConfig,
    cost_center_ids: Seq<String>,
    sale_items: Seq<ExportResponseSaleItem>,
    vat_codes: Seq<VatCode>,
    gl_account: Seq<char>,
    k: int,
)
    requires
        0 <= k <= items.len(),
        product_lines_outcome(
            event,
            items.take(k),
            config,
            cost_center_ids,
            sale_items,
            vat_codes,
            gl_account,
        ) is Err,
    ensures
        product_lines_outcome(event, items, config, cost_center_ids, sale_items, vat_codes, gl_account)
            == product_lines_outcome(
            event,
            items.take(k),
            config,
            cost_center_ids,
            sale_items,
            vat_codes,
            gl_account,
        ),
    decreases items.len(),
{
    if k == items.len() {
        assert(items.take(k) =~= items);
    } else {
        assert(items.drop_last().take(k) =~= items.take(k));
        lemma_product_lines_err_prefix(
            event,
            items.drop_last(),
            config,
            cost_center_ids,
            sale_items,
            vat_codes,
            gl_account,
            k,
        );
    }
}

/// Compiles each pattern, in order; fails on the first invalid one.
fn compile_patterns(patterns: &Vec<RegexPattern>) -> (r: Result<Vec<CompiledPattern>, ClassifyError>)
    ensures
        r is Ok <==> first_invalid(patterns@) is None,
        r matches Ok(compiled) ==> compiled@.len() == patterns@.len() && forall|i: int|
            0 <= i < patterns@.len() ==> (#[trigger] compiled@[i])@ == patterns@[i].0@,
        r matches Err(e) ==> e@ == ClassifyErrorView::InvalidPattern(
            patterns@[first_invalid(patterns@)->0].0@,
        ),
{
    let ghost invalid = Seq::new(patterns@.len(), |i: int| !regex_compiles(patterns@[i].0@));
    let mut compiled: Vec<CompiledPattern> = Vec::new();
    let mut i: usize = 0;
    while i < patterns.len()
        invariant
            i <= patterns.len(),
            invalid == Seq::new(patterns@.len(), |i: int| !regex_compiles(patterns@[i].0@)),
            first_true(invalid.take(i as int)) is None,
            compiled@.len() == i,
            forall|h: int| 0 <= h < i ==> (#[trigger] compiled@[h])@ == patterns@[h].0@,
        decreases patterns.len() - i,
    {
        let ghost prefix = invalid.take(i as int + 1);
        assert(prefix.drop_last() =~= invalid.take(i as int));
        match CompiledPattern::compile(patterns[i].as_str()) {
            Some(p) => {
                compiled.push(p);
            },
            None => {
                proof {
                    lemma_first_true_prefix(invalid, i as int + 1);
                }
                return Err(ClassifyError::InvalidPattern { pattern: patterns[i].0.clone() });
            },
        }
        i = i + 1;
    }
    assert(invalid.take(i as int) =~= invalid);
    Ok(compiled)
}

/// The patterns of the cost center table.
fn cost_center_pattern_list(table: &Vec<(RegexPattern, ExactCostCenterCode)>) -> (r: Vec<RegexPattern>)
    ensures
        r@ == cost_center_patterns(table@),
{
    let mut r: Vec<RegexPattern> = Vec::new();
    let mut i: usize = 0;
    while i < table.len()
        invariant
            i <= table.len(),
            r@ =~= cost_center_patterns(table@).take(i as int),
        decreases table.len() - i,
    {
        r.push(RegexPattern(table[i].0.0.clone()));
        i = i + 1;
    }
    assert(cost_center_patterns(table@).take(i as int) =~= cost_center_patterns(table@));
    r
}

/// Which of the compiled patterns match the text.
fn matches_of(patterns: &Vec<CompiledPattern>, text: &str) -> (r: Vec<bool>)
    ensures
        r@ == Seq::new(patterns@.len(), |i: int| regex_matches(patterns@[i]@, text@)),
{
    let mut r: Vec<bool> = Vec::new();
    let mut i: usize = 0;
    while i < patterns.len()
        invariant
            i <= patterns.len(),
            r@ =~= Seq::new(i as nat, |h: int| regex_matches(patterns@[h]@, text@)),
        decreases patterns.len() - i,
    {
        r.push(patterns[i].is_match(text));
        i = i + 1;
    }
    r
}

/// The ledger lines of an event's summary under its configuration, given the
/// identifiers of its general-ledger account and of its cost centers (one per
/// entry of the cost center table) and the account of the fee line.
pub fn ledger_lines(
    summary: &EventSummary,
    config: &PretixEventConfig,
    vat_codes: &Vec<VatCode>,
    gl_account: &str,
    cost_center_ids: &Vec<String>,
    fee_gl_account: &str,
) -> (r: Result<Vec<LedgerLine>, ClassifyError>)
    requires
        cost_center_ids@.len() == config.cost_centers_per_product@.len(),
    ensures
        lines_view(r) == ledger_outcome(
            *summary,
            *config,
            vat_codes@,
            gl_account@,
            cost_center_ids@,
            fee_gl_account@,
        ),
{
    let event = summary.event_name.as_str();
    let cc_list = cost_center_pattern_list(&config.cost_centers_per_product);
    let cc = compile_patterns(&cc_list)?;
    let mut fee_description = make_line_name(event);
    fee_description.append(" | Transactiekosten");
    let fee_line = LedgerLine {
        gl_account: String::from_str(fee_gl_account),
        cost_center: None,
        vat_code: None,
        description: fee_description,
        amount: summary.totals.fees,
    };
    let mut lines: Vec<LedgerLine> = Vec::new();
    if !config.split_per_product {
        let vat = match &config.vat_code {
            Some(v) => v.clone(),
            None => {
                return Err(ClassifyError::MissingVatCode);
            },
        };
        lines.push(
            LedgerLine {
                gl_account: String::from_str(gl_account),
                cost_center: None,
                vat_code: Some(vat),
                description: make_line_name(event),
                amount: summary.totals.value,
            },
        );
        lines.push(fee_line);
        assert(lines@.map_values(|l: LedgerLine| l@) =~= seq![lines@[0]@, lines@[1]@]);
        return Ok(lines);
    }
    let ignore = compile_patterns(&config.ignore_products)?;
    let items = &summary.items;
    let ghost cc_patterns = cost_center_patterns(config.cost_centers_per_product@);
    let mut j: usize = 0;
    assert(items@.take(0) =~= Seq::<(String, i64)>::empty());
    assert(lines@.map_values(|l: LedgerLine| l@) =~= Seq::<LedgerLineView>::empty());
    while j < items.len()
        invariant
            j <= items.len(),
            items@ == summary.items@,
            cc@.len() == cc_patterns.len(),
            cc_patterns == cost_center_patterns(config.cost_centers_per_product@),
            first_invalid(cc_patterns) is None,
            first_invalid(config.ignore_products@) is None,
            config.split_per_product,
            cost_center_ids@.len() == cc_patterns.len(),
            forall|i: int| 0 <= i < cc_patterns.len() ==> (#[trigger] cc@[i])@ == cc_patterns[i].0@,
            ignore@.len() == config.ignore_products@.len(),
            forall|i: int|
                0 <= i < config.ignore_products@.len() ==> (#[trigger] ignore@[i])@
                    == config.ignore_products@[i].0@,
            event@ == summary.event_name@,
            product_lines_outcome(
                event@,
                items@.take(j as int),
                *config,
                cost_center_ids@,
                summary.sale_items@,
                vat_codes@,
                gl_account@,
            ) == Ok::<Seq<LedgerLineView>, ClassifyErrorView>(lines@.map_values(|l: LedgerLine| l@)),
        decreases items.len() - j,
    {
        let ghost prefix = items@.take(j as int + 1);
        assert(prefix.drop_last() =~= items@.take(j as int));
        assert(prefix.last() == items@[j as int]);
        let product = items[j].0.as_str();
        let ignore_matches = matches_of(&ignore, product);
        assert(ignore_matches@ =~= pattern_matches(config.ignore_products@, product@));
        let ignored = any_match(&ignore_matches);
        let cc_matches = matches_of(&cc, product);
        assert(cc_matches@ =~= pattern_matches(cc_patterns, product@));
        let line = match product_line(
            event,
            product,
            items[j].1,
            ignored,
            &cc_matches,
            cost_center_ids,
            &summary.sale_items,
            vat_codes,
            gl_account,
        ) {
            Ok(line) => line,
            Err(e) => {
                proof {
                    assert(product_lines_outcome(
                        event@,
                        prefix,
                        *config,
                        cost_center_ids@,
                        summary.sale_items@,
                        vat_codes@,
                        gl_account@,
                    ) == Err::<Seq<LedgerLineView>, ClassifyErrorView>(e@));
                    lemma_product_lines_err_prefix(
                        event@,
                        items@,
                        *config,
                        cost_center_ids@,
                        summary.sale_items@,
                        vat_codes@,
                        gl_account@,
                        j as int + 1,
                    );
                }
                return Err(e);
            },
        };
        match line {
            Some(l) => {
                let ghost before = lines@;
                lines.push(l);
                assert(lines@.map_values(|l: LedgerLine| l@) =~= before.map_values(
                    |l: LedgerLine| l@,
                ).push(l@));
            },
            None => {},
        }
        j = j + 1;
    }
    assert(items@.take(j as int) =~= items@);
    let ghost before = lines@;
    lines.push(fee_line);
    assert(lines@.map_values(|l: LedgerLine| l@) =~= before.map_values(|l: LedgerLine| l@).push(
        fee_line@,
    ));
    Ok(lines)
}


/// Split mode with three products that all sold something: the first matched
/// only by the first cost center pattern, the second only by the second, the
/// third by the ignore pattern. Exactly two product lines come out, each with
/// its own cost center, followed by the fee line; the ignored product gets none.
pub proof fn lemma_split_lines_skip_ignored_product(
    summary: EventSummary,
    config: PretixEventConfig,
    vat_codes: Seq<VatCode>,
    gl_account: Seq<char>,
    cost_center_ids: Seq<String>,
    fee_gl_account: Seq<char>,
)
    requires
        config.split_per_product,
        summary.items@.len() == 3,
        config.cost_centers_per_product@.len() == 2,
        config.ignore_products@.len() == 1,
        cost_center_ids.len() == 2,
        first_invalid(cost_center_patterns(config.cost_centers_per_product@)) is None,
        first_invalid(config.ignore_products@) is None,
        forall|i: int| 0 <= i < 3 ==> (#[trigger] summary.items@[i]).1 != 0,
        ({
            let a = summary.items@[0].0@;
            let b = summary.items@[1].0@;
            let c = summary.items@[2].0@;
            let pa = config.cost_centers_per_product@[0].0.0@;
            let pb = config.cost_centers_per_product@[1].0.0@;
            let pi = config.ignore_products@[0].0@;
            &&& regex_matches(pa, a)
            &&& !regex_matches(pa, b)
            &&& regex_matches(pb, b)
            &&& regex_matches(pi, c)
            &&& !regex_matches(pi, a)
            &&& !regex_matches(pi, b)
            &&& sale_item_by_name(summary.sale_items@, a) matches Some(s) && vat_code_for_rate(
                vat_codes,
                summary.sale_items@[s].tax_rate,
            ) is Some
            &&& sale_item_by_name(summary.sale_items@, b) matches Some(s) && vat_code_for_rate(
                vat_codes,
                summary.sale_items@[s].tax_rate,
            ) is Some
        }),
    ensures
        ({
            let event = summary.event_name@;
            let items = summary.items@;
            &&& ledger_outcome(
                summary,
                config,
                vat_codes,
                gl_account,
                cost_center_ids,
                fee_gl_account,
            ) matches Ok(lines)
            &&& lines.len() == 3
            &&& lines[0].cost_center == Some(cost_center_ids[0]@)
            &&& lines[0].description == product_line_name(event, items[0].0@)
            &&& lines[0].amount == items[0].1
            &&& lines[1].cost_center == Some(cost_center_ids[1]@)
            &&& lines[1].description == product_line_name(event, items[1].0@)
            &&& lines[1].amount == items[1].1
            &&& lines[2] == (LedgerLineView {
                gl_account: fee_gl_account,
                cost_center: None,
                vat_code: None,
                description: fee_line_name(event),
                amount: summary.totals.fees,
            })
        }),
{
    reveal_with_fuel(product_lines_outcome, 4);
    reveal_with_fuel(first_true, 3);
    let event = summary.event_name@;
    let items = summary.items@;
    let a = items[0].0@;
    let b = items[1].0@;
    let c = items[2].0@;
    let cc = cost_center_patterns(config.cost_centers_per_product@);
    let ignore = config.ignore_products@;
    assert(cc[0] == config.cost_centers_per_product@[0].0);
    assert(cc[1] == config.cost_centers_per_product@[1].0);
    assert(items.drop_last().drop_last().drop_last() =~= Seq::<(String, i64)>::empty());
    assert(items.drop_last().drop_last().last() == items[0]);
    assert(items.drop_last().last() == items[1]);
    assert(items.last() == items[2]);
    assert(items[0].1 != 0 && items[1].1 != 0 && items[2].1 != 0);
    // which patterns match each product
    let ia = pattern_matches(ignore, a);
    let ib = pattern_matches(ignore, b);
    let ic = pattern_matches(ignore, c);
    assert(!ia.contains(true)) by {
        assert(ia[0] == false);
    }
    assert(!ib.contains(true)) by {
        assert(ib[0] == false);
    }
    assert(ic.contains(true)) by {
        assert(ic[0] == true);
    }
    let ca = pattern_matches(cc, a);
    let cb = pattern_matches(cc, b);
    assert(ca.drop_last() =~= seq![true]);
    assert(seq![true].drop_last() =~= Seq::<bool>::empty());
    assert(first_true(ca) == Some(0int));
    assert(cb.drop_last() =~= seq![false]);
    assert(seq![false].drop_last() =~= Seq::<bool>::empty());
    assert(cb.last() == true);
    assert(first_true(cb) == Some(1int));
}

} // verus!
