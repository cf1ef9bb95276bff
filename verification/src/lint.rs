//! The lints, the groups they belong to, and what is registered of them.

use crate::text;
use vstd::prelude::*;

verus! {

/// A `waterui` lint group. The group fixes the default level of its lints:
/// `correctness` lints deny, `suspicious`, `style` and `a11y` lints warn, and
/// `pedantic` lints are allow-by-default opt-ins.
///
/// Group names are plain identifiers (`waterui_style`), not tool-scoped
/// (`waterui::style`): a scoped name needs its tool registered in the linted
/// crate.
#[derive(Clone, Copy, Debug, PartialEq, Eq, Structural)]
pub enum Group {
    Correctness,
    Suspicious,
    Style,
    Pedantic,
    A11y,
}

/// The level a lint has unless the linted crate sets another.
#[derive(Clone, Copy, Debug, PartialEq, Eq, Structural)]
pub enum Level {
    Allow,
    Warn,
    Deny,
}

impl Group {
    /// Every group, in the order in which they are registered.
    pub open spec fn all() -> Seq<Group> {
        seq![Group::Correctness, Group::Suspicious, Group::Style, Group::Pedantic, Group::A11y]
    }

    /// The name that the group is registered under.
    pub open spec fn registered_name(self) -> Seq<char> {
        match self {
            Group::Correctness => "waterui_correctness"@,
            Group::Suspicious => "waterui_suspicious"@,
            Group::Style => "waterui_style"@,
            Group::Pedantic => "waterui_pedantic"@,
            Group::A11y => "waterui_a11y"@,
        }
    }

    /// The name that the group is registered under.
    pub fn name(self) -> (r: &'static str)
        ensures
            r@ == self.registered_name(),
    {
        match self {
            Group::Correctness => "waterui_correctness",
            Group::Suspicious => "waterui_suspicious",
            Group::Style => "waterui_style",
            Group::Pedantic => "waterui_pedantic",
            Group::A11y => "waterui_a11y",
        }
    }

    /// The default level of the group's lints.
    pub open spec fn level(self) -> Level {
        match self {
            Group::Correctness => Level::Deny,
            Group::Suspicious | Group::Style | Group::A11y => Level::Warn,
            Group::Pedantic => Level::Allow,
        }
    }

    /// The default level of the group's lints.
    pub fn default_level(self) -> (r: Level)
        ensures
            r == self.level(),
    {
        match self {
            Group::Correctness => Level::Deny,
            Group::Suspicious | Group::Style | Group::A11y => Level::Warn,
            Group::Pedantic => Level::Allow,
        }
    }
}

/// The lints.
#[derive(Clone, Copy, Debug, PartialEq, Eq, Structural)]
pub enum Lint {
    AnyviewNewInFreeFn,
    BindingParameterByValue,
    BlockingInUiContext,
    ThreadSleepInUi,
    CollectionItemSnapshot,
    ComputedParameter,
    DefaultBindingConstructor,
    DiscardedWaitResult,
    EmptyLabelLiteral,
    FixedChildrenInVec,
    PushLoopSeed,
    FormatInText,
    PluralBypass,
    HandlerCapturesBinding,
    HardcodedThemeValue,
    IfElseView,
    ImageWithoutLabel,
    ListInScroll,
    LiteralColorComponents,
    LocalizedConcat,
    LongTextKey,
    ManualBindingMutation,
    ManualColorErasure,
    ManualComputed,
    ManualEdgeInsets,
    ManualIdentifiable,
    ManualListMutation,
    ManualMutedForeground,
    ManualSignalCombinator,
    ManualSignalZipOp,
    ManualStringSignal,
    ManualTextMap,
    MissingTranslation,
    OrphanTranslation,
    NeedlessAnyview,
    NeedlessComputed,
    NeedlessListSnapshot,
    NeedlessSignalCast,
}

impl Lint {
    /// Every lint, in the order in which they are registered.
    pub open spec fn all() -> Seq<Lint> {
        seq![
            Lint::AnyviewNewInFreeFn,
            Lint::BindingParameterByValue,
            Lint::BlockingInUiContext,
            Lint::ThreadSleepInUi,
            Lint::CollectionItemSnapshot,
            Lint::ComputedParameter,
            Lint::DefaultBindingConstructor,
            Lint::DiscardedWaitResult,
            Lint::EmptyLabelLiteral,
            Lint::FixedChildrenInVec,
            Lint::PushLoopSeed,
            Lint::FormatInText,
            Lint::PluralBypass,
            Lint::HandlerCapturesBinding,
            Lint::HardcodedThemeValue,
            Lint::IfElseView,
            Lint::ImageWithoutLabel,
            Lint::ListInScroll,
            Lint::LiteralColorComponents,
            Lint::LocalizedConcat,
            Lint::LongTextKey,
            Lint::ManualBindingMutation,
            Lint::ManualColorErasure,
            Lint::ManualComputed,
            Lint::ManualEdgeInsets,
            Lint::ManualIdentifiable,
            Lint::ManualListMutation,
            Lint::ManualMutedForeground,
            Lint::ManualSignalCombinator,
            Lint::ManualSignalZipOp,
            Lint::ManualStringSignal,
            Lint::ManualTextMap,
            Lint::MissingTranslation,
            Lint::OrphanTranslation,
            Lint::NeedlessAnyview,
            Lint::NeedlessComputed,
            Lint::NeedlessListSnapshot,
            Lint::NeedlessSignalCast,
        ]
    }

    /// The group that the lint is declared in.
    pub open spec fn declared_group(self) -> Group {
        match self {
            Lint::AnyviewNewInFreeFn => Group::Style,
            Lint::BindingParameterByValue => Group::Style,
            Lint::BlockingInUiContext => Group::Suspicious,
            Lint::ThreadSleepInUi => Group::Correctness,
            Lint::CollectionItemSnapshot => Group::Suspicious,
            Lint::ComputedParameter => Group::Style,
            Lint::DefaultBindingConstructor => Group::Style,
            Lint::DiscardedWaitResult => Group::Correctness,
            Lint::EmptyLabelLiteral => Group::A11y,
            Lint::FixedChildrenInVec => Group::Pedantic,
            Lint::PushLoopSeed => Group::Pedantic,
            Lint::FormatInText => Group::Suspicious,
            Lint::PluralBypass => Group::Suspicious,
            Lint::HandlerCapturesBinding => Group::Style,
            Lint::HardcodedThemeValue => Group::Pedantic,
            Lint::IfElseView => Group::Style,
            Lint::ImageWithoutLabel => Group::A11y,
            Lint::ListInScroll => Group::Suspicious,
            Lint::LiteralColorComponents => Group::Style,
            Lint::LocalizedConcat => Group::Pedantic,
            Lint::LongTextKey => Group::Pedantic,
            Lint::ManualBindingMutation => Group::Style,
            Lint::ManualColorErasure => Group::Style,
            Lint::ManualComputed => Group::Style,
            Lint::ManualEdgeInsets => Group::Style,
            Lint::ManualIdentifiable => Group::Style,
            Lint::ManualListMutation => Group::Style,
            Lint::ManualMutedForeground => Group::Style,
            Lint::ManualSignalCombinator => Group::Style,
            Lint::ManualSignalZipOp => Group::Style,
            Lint::ManualStringSignal => Group::Style,
            Lint::ManualTextMap => Group::Style,
            Lint::MissingTranslation => Group::Pedantic,
            Lint::OrphanTranslation => Group::Pedantic,
            Lint::NeedlessAnyview => Group::Style,
            Lint::NeedlessComputed => Group::Style,
            Lint::NeedlessListSnapshot => Group::Style,
            Lint::NeedlessSignalCast => Group::Style,
        }
    }

    /// The group that the lint is declared in.
    pub fn group(self) -> (r: Group)
        ensures
            r == self.declared_group(),
    {
        match self {
            Lint::AnyviewNewInFreeFn => Group::Style,
            Lint::BindingParameterByValue => Group::Style,
            Lint::BlockingInUiContext => Group::Suspicious,
            Lint::ThreadSleepInUi => Group::Correctness,
            Lint::CollectionItemSnapshot => Group::Suspicious,
            Lint::ComputedParameter => Group::Style,
            Lint::DefaultBindingConstructor => Group::Style,
            Lint::DiscardedWaitResult => Group::Correctness,
            Lint::EmptyLabelLiteral => Group::A11y,
            Lint::FixedChildrenInVec => Group::Pedantic,
            Lint::PushLoopSeed => Group::Pedantic,
            Lint::FormatInText => Group::Suspicious,
            Lint::PluralBypass => Group::Suspicious,
            Lint::HandlerCapturesBinding => Group::Style,
            Lint::HardcodedThemeValue => Group::Pedantic,
            Lint::IfElseView => Group::Style,
            Lint::ImageWithoutLabel => Group::A11y,
            Lint::ListInScroll => Group::Suspicious,
            Lint::LiteralColorComponents => Group::Style,
            Lint::LocalizedConcat => Group::Pedantic,
            Lint::LongTextKey => Group::Pedantic,
            Lint::ManualBindingMutation => Group::Style,
            Lint::ManualColorErasure => Group::Style,
            Lint::ManualComputed => Group::Style,
            Lint::ManualEdgeInsets => Group::Style,
            Lint::ManualIdentifiable => Group::Style,
            Lint::ManualListMutation => Group::Style,
            Lint::ManualMutedForeground => Group::Style,
            Lint::ManualSignalCombinator => Group::Style,
            Lint::ManualSignalZipOp => Group::Style,
            Lint::ManualStringSignal => Group::Style,
            Lint::ManualTextMap => Group::Style,
            Lint::MissingTranslation => Group::Pedantic,
            Lint::OrphanTranslation => Group::Pedantic,
            Lint::NeedlessAnyview => Group::Style,
            Lint::NeedlessComputed => Group::Style,
            Lint::NeedlessListSnapshot => Group::Style,
            Lint::NeedlessSignalCast => Group::Style,
        }
    }

    /// The name that the lint is known by in `#[allow(..)]`.
    pub open spec fn id(self) -> Seq<char> {
        match self {
            Lint::AnyviewNewInFreeFn => "anyview_new_in_free_fn"@,
            Lint::BindingParameterByValue => "binding_parameter_by_value"@,
            Lint::BlockingInUiContext => "blocking_in_ui_context"@,
            Lint::ThreadSleepInUi => "thread_sleep_in_ui"@,
            Lint::CollectionItemSnapshot => "collection_item_snapshot"@,
            Lint::ComputedParameter => "computed_parameter"@,
            Lint::DefaultBindingConstructor => "default_binding_constructor"@,
            Lint::DiscardedWaitResult => "discarded_wait_result"@,
            Lint::EmptyLabelLiteral => "empty_label_literal"@,
            Lint::FixedChildrenInVec => "fixed_children_in_vec"@,
            Lint::PushLoopSeed => "push_loop_seed"@,
            Lint::FormatInText => "format_in_text"@,
            Lint::PluralBypass => "plural_bypass"@,
            Lint::HandlerCapturesBinding => "handler_captures_binding"@,
            Lint::HardcodedThemeValue => "hardcoded_theme_value"@,
            Lint::IfElseView => "if_else_view"@,
            Lint::ImageWithoutLabel => "image_without_label"@,
            Lint::ListInScroll => "list_in_scroll"@,
            Lint::LiteralColorComponents => "literal_color_components"@,
            Lint::LocalizedConcat => "localized_concat"@,
            Lint::LongTextKey => "long_text_key"@,
            Lint::ManualBindingMutation => "manual_binding_mutation"@,
            Lint::ManualColorErasure => "manual_color_erasure"@,
            Lint::ManualComputed => "manual_computed"@,
            Lint::ManualEdgeInsets => "manual_edge_insets"@,
            Lint::ManualIdentifiable => "manual_identifiable"@,
            Lint::ManualListMutation => "manual_list_mutation"@,
            Lint::ManualMutedForeground => "manual_muted_foreground"@,
            Lint::ManualSignalCombinator => "manual_signal_combinator"@,
            Lint::ManualSignalZipOp => "manual_signal_zip_op"@,
            Lint::ManualStringSignal => "manual_string_signal"@,
            Lint::ManualTextMap => "manual_text_map"@,
            Lint::MissingTranslation => "missing_translation"@,
            Lint::OrphanTranslation => "orphan_translation"@,
            Lint::NeedlessAnyview => "needless_anyview"@,
            Lint::NeedlessComputed => "needless_computed"@,
            Lint::NeedlessListSnapshot => "needless_list_snapshot"@,
            Lint::NeedlessSignalCast => "needless_signal_cast"@,
        }
    }

    /// The name that the lint is known by in `#[allow(..)]`.
    pub fn name(self) -> (r: &'static str)
        ensures
            r@ == self.id(),
    {
        match self {
            Lint::AnyviewNewInFreeFn => "anyview_new_in_free_fn",
            Lint::BindingParameterByValue => "binding_parameter_by_value",
            Lint::BlockingInUiContext => "blocking_in_ui_context",
            Lint::ThreadSleepInUi => "thread_sleep_in_ui",
            Lint::CollectionItemSnapshot => "collection_item_snapshot",
            Lint::ComputedParameter => "computed_parameter",
            Lint::DefaultBindingConstructor => "default_binding_constructor",
            Lint::DiscardedWaitResult => "discarded_wait_result",
            Lint::EmptyLabelLiteral => "empty_label_literal",
            Lint::FixedChildrenInVec => "fixed_children_in_vec",
            Lint::PushLoopSeed => "push_loop_seed",
            Lint::FormatInText => "format_in_text",
            Lint::PluralBypass => "plural_bypass",
            Lint::HandlerCapturesBinding => "handler_captures_binding",
            Lint::HardcodedThemeValue => "hardcoded_theme_value",
            Lint::IfElseView => "if_else_view",
            Lint::ImageWithoutLabel => "image_without_label",
            Lint::ListInScroll => "list_in_scroll",
            Lint::LiteralColorComponents => "literal_color_components",
            Lint::LocalizedConcat => "localized_concat",
            Lint::LongTextKey => "long_text_key",
            Lint::ManualBindingMutation => "manual_binding_mutation",
            Lint::ManualColorErasure => "manual_color_erasure",
            Lint::ManualComputed => "manual_computed",
            Lint::ManualEdgeInsets => "manual_edge_insets",
            Lint::ManualIdentifiable => "manual_identifiable",
            Lint::ManualListMutation => "manual_list_mutation",
            Lint::ManualMutedForeground => "manual_muted_foreground",
            Lint::ManualSignalCombinator => "manual_signal_combinator",
            Lint::ManualSignalZipOp => "manual_signal_zip_op",
            Lint::ManualStringSignal => "manual_string_signal",
            Lint::ManualTextMap => "manual_text_map",
            Lint::MissingTranslation => "missing_translation",
            Lint::OrphanTranslation => "orphan_translation",
            Lint::NeedlessAnyview => "needless_anyview",
            Lint::NeedlessComputed => "needless_computed",
            Lint::NeedlessListSnapshot => "needless_list_snapshot",
            Lint::NeedlessSignalCast => "needless_signal_cast",
        }
    }
}

/// The lints of `list` that belong to `group`, in the order of the list.
pub open spec fn members(list: Seq<Lint>, group: Group) -> Seq<Lint> {
    list.filter(|lint: Lint| lint.declared_group() == group)
}

impl Lint {
    /// What the lint is about, in a line.
    pub open spec fn described(self) -> Seq<char> {
        match self {
            Lint::AnyviewNewInFreeFn => "`AnyView::new` in a free function instead of the postfix `.anyview()`"@,
            Lint::BindingParameterByValue => "a `Binding<T>` parameter taken by value instead of `&Binding<T>`"@,
            Lint::BlockingInUiContext => "a blocking call inside a handler, `async` scope, `View::body`, or `GpuView::render`"@,
            Lint::ThreadSleepInUi => "`std::thread::sleep` blocks the UI thread's executor"@,
            Lint::CollectionItemSnapshot => "a non-signal field of a `for_each` item drives a reactive property"@,
            Lint::ComputedParameter => "a `Computed<T>` parameter where callers could pass any signal"@,
            Lint::DefaultBindingConstructor => "`binding(..)`/`Binding::container(..)` seeded with the type's default is `Binding::<T>::default()`"@,
            Lint::DiscardedWaitResult => "the result of `wait_for_*` is discarded, so this wait can never fail"@,
            Lint::EmptyLabelLiteral => "an empty string literal passed as a control's mandatory label"@,
            Lint::FixedChildrenInVec => "a fixed set of children as `vec!`"@,
            Lint::PushLoopSeed => "a `ReactiveList` seeded by a push loop"@,
            Lint::FormatInText => "`format!` prose in a text position is untranslatable verbatim text"@,
            Lint::PluralBypass => "an integer formatted into prose bypasses the plural categories"@,
            Lint::HandlerCapturesBinding => "this handler captures a reactive handle instead of taking it as `State<T>`"@,
            Lint::HardcodedThemeValue => "a literal color or font size in view code instead of a theme token"@,
            Lint::IfElseView => "`if`/`else` choosing between views instead of a reactive `when` chain"@,
            Lint::ImageWithoutLabel => "this image has no accessibility label"@,
            Lint::ListInScroll => "a `List` inside `scroll(..)` is given unbounded height"@,
            Lint::LiteralColorComponents => "a color built from numeric-literal components; write it as a hex literal"@,
            Lint::LocalizedConcat => "concatenating localized text builds an untranslatable sentence"@,
            Lint::LongTextKey => "a text key longer than `long_text_key_words` words belongs in the catalog"@,
            Lint::ManualBindingMutation => "a `Binding` mutation written by hand that restates a named `Binding` method"@,
            Lint::ManualColorErasure => "a `Color` conversion written by hand where the parameter already takes the colorspace value"@,
            Lint::ManualComputed => "a `Computed` erasure written out where `SignalExt::computed` is the method form"@,
            Lint::ManualEdgeInsets => "an `EdgeInsets` constructor where the parameter takes the value directly"@,
            Lint::ManualIdentifiable => "hand-written `impl Identifiable` or `use_id`/`self_id` where the derive fits"@,
            Lint::ManualListMutation => "a `List` edited through snapshot–mutate–replace where `List` has the method"@,
            Lint::ManualMutedForeground => "a hand-written `.foreground(MutedForeground)` where `.muted()` is the named modifier"@,
            Lint::ManualSignalCombinator => "a `map` closure that restates a named `SignalExt` combinator"@,
            Lint::ManualSignalZipOp => "a `zip`/`map` pair that restates a named signal operation"@,
            Lint::ManualStringSignal => "a `map` that builds a `String`/`Str` by hand restates `s!`"@,
            Lint::ManualTextMap => "`text!` already formats a signal — `.map(|v| format!(..))` throws away format specs and the translatable sentence"@,
            Lint::MissingTranslation => "a `text!`/`Text::localized` key absent from an `i18n/*.toml` catalog"@,
            Lint::OrphanTranslation => "an `i18n/*.toml` key no `text!` or `Text::localized` literal uses"@,
            Lint::NeedlessAnyview => "erasing to `AnyView` where `impl View` is already accepted"@,
            Lint::NeedlessComputed => "a `computed()` erasure feeding consumers that already accept any signal"@,
            Lint::NeedlessListSnapshot => "a `snapshot()` consumed by an operation `List` exposes directly"@,
            Lint::NeedlessSignalCast => "a `map` to `f32` on a signal that only feeds `impl IntoSignalF32` parameters"@,
        }
    }

    /// What the lint is about, in a line.
    pub fn description(self) -> (r: &'static str)
        ensures
            r@ == self.described(),
    {
        match self {
            Lint::AnyviewNewInFreeFn => "`AnyView::new` in a free function instead of the postfix `.anyview()`",
            Lint::BindingParameterByValue => "a `Binding<T>` parameter taken by value instead of `&Binding<T>`",
            Lint::BlockingInUiContext => "a blocking call inside a handler, `async` scope, `View::body`, or `GpuView::render`",
            Lint::ThreadSleepInUi => "`std::thread::sleep` blocks the UI thread's executor",
            Lint::CollectionItemSnapshot => "a non-signal field of a `for_each` item drives a reactive property",
            Lint::ComputedParameter => "a `Computed<T>` parameter where callers could pass any signal",
            Lint::DefaultBindingConstructor => "`binding(..)`/`Binding::container(..)` seeded with the type's default is `Binding::<T>::default()`",
            Lint::DiscardedWaitResult => "the result of `wait_for_*` is discarded, so this wait can never fail",
            Lint::EmptyLabelLiteral => "an empty string literal passed as a control's mandatory label",
            Lint::FixedChildrenInVec => "a fixed set of children as `vec!`",
            Lint::PushLoopSeed => "a `ReactiveList` seeded by a push loop",
            Lint::FormatInText => "`format!` prose in a text position is untranslatable verbatim text",
            Lint::PluralBypass => "an integer formatted into prose bypasses the plural categories",
            Lint::HandlerCapturesBinding => "this handler captures a reactive handle instead of taking it as `State<T>`",
            Lint::HardcodedThemeValue => "a literal color or font size in view code instead of a theme token",
            Lint::IfElseView => "`if`/`else` choosing between views instead of a reactive `when` chain",
            Lint::ImageWithoutLabel => "this image has no accessibility label",
            Lint::ListInScroll => "a `List` inside `scroll(..)` is given unbounded height",
            Lint::LiteralColorComponents => "a color built from numeric-literal components; write it as a hex literal",
            Lint::LocalizedConcat => "concatenating localized text builds an untranslatable sentence",
            Lint::LongTextKey => "a text key longer than `long_text_key_words` words belongs in the catalog",
            Lint::ManualBindingMutation => "a `Binding` mutation written by hand that restates a named `Binding` method",
            Lint::ManualColorErasure => "a `Color` conversion written by hand where the parameter already takes the colorspace value",
            Lint::ManualComputed => "a `Computed` erasure written out where `SignalExt::computed` is the method form",
            Lint::ManualEdgeInsets => "an `EdgeInsets` constructor where the parameter takes the value directly",
            Lint::ManualIdentifiable => "hand-written `impl Identifiable` or `use_id`/`self_id` where the derive fits",
            Lint::ManualListMutation => "a `List` edited through snapshot–mutate–replace where `List` has the method",
            Lint::ManualMutedForeground => "a hand-written `.foreground(MutedForeground)` where `.muted()` is the named modifier",
            Lint::ManualSignalCombinator => "a `map` closure that restates a named `SignalExt` combinator",
            Lint::ManualSignalZipOp => "a `zip`/`map` pair that restates a named signal operation",
            Lint::ManualStringSignal => "a `map` that builds a `String`/`Str` by hand restates `s!`",
            Lint::ManualTextMap => "`text!` already formats a signal — `.map(|v| format!(..))` throws away format specs and the translatable sentence",
            Lint::MissingTranslation => "a `text!`/`Text::localized` key absent from an `i18n/*.toml` catalog",
            Lint::OrphanTranslation => "an `i18n/*.toml` key no `text!` or `Text::localized` literal uses",
            Lint::NeedlessAnyview => "erasing to `AnyView` where `impl View` is already accepted",
            Lint::NeedlessComputed => "a `computed()` erasure feeding consumers that already accept any signal",
            Lint::NeedlessListSnapshot => "a `snapshot()` consumed by an operation `List` exposes directly",
            Lint::NeedlessSignalCast => "a `map` to `f32` on a signal that only feeds `impl IntoSignalF32` parameters",
        }
    }
}

/// What is handed to the lint store: every lint, and each group's name with its
/// lints.
pub struct Registry {
    pub lints: Vec<Lint>,
    pub groups: Vec<(Group, Vec<Lint>)>,
}

fn group_members(lints: &Vec<Lint>, group: Group) -> (r: Vec<Lint>)
    ensures
        r@ == members(lints@, group),
{
    let mut out: Vec<Lint> = Vec::new();
    let mut i: usize = 0;
    let ghost belongs = |lint: Lint| lint.declared_group() == group;
    proof {
        reveal(Seq::filter);
    }
    while i < lints.len()
        invariant
            i <= lints.len(),
            belongs == (|lint: Lint| lint.declared_group() == group),
            out@ == lints@.take(i as int).filter(belongs),
        decreases lints.len() - i,
    {
        proof {
            reveal(Seq::filter);
            assert(lints@.take(i + 1).drop_last() =~= lints@.take(i as int));
        }
        if lints[i].group() == group {
            out.push(lints[i]);
        }
        i = i + 1;
    }
    proof {
        assert(lints@.take(lints.len() as int) =~= lints@);
    }
    out
}

/// Every lint, and each group with exactly the lints declared in it, in the
/// order of the lints.
pub fn register_lints() -> (r: Registry)
    ensures
        r.lints@ == Lint::all(),
        r.groups@.len() == Group::all().len(),
        forall|i: int|
            0 <= i < r.groups@.len() ==> (#[trigger] r.groups@[i]).0 == Group::all()[i]
                && r.groups@[i].1@ == members(Lint::all(), Group::all()[i]),
{
    let lints: Vec<Lint> = vec![
        Lint::AnyviewNewInFreeFn,
        Lint::BindingParameterByValue,
        Lint::BlockingInUiContext,
        Lint::ThreadSleepInUi,
        Lint::CollectionItemSnapshot,
        Lint::ComputedParameter,
        Lint::DefaultBindingConstructor,
        Lint::DiscardedWaitResult,
        Lint::EmptyLabelLiteral,
        Lint::FixedChildrenInVec,
        Lint::PushLoopSeed,
        Lint::FormatInText,
        Lint::PluralBypass,
        Lint::HandlerCapturesBinding,
        Lint::HardcodedThemeValue,
        Lint::IfElseView,
        Lint::ImageWithoutLabel,
        Lint::ListInScroll,
        Lint::LiteralColorComponents,
        Lint::LocalizedConcat,
        Lint::LongTextKey,
        Lint::ManualBindingMutation,
        Lint::ManualColorErasure,
        Lint::ManualComputed,
        Lint::ManualEdgeInsets,
        Lint::ManualIdentifiable,
        Lint::ManualListMutation,
        Lint::ManualMutedForeground,
        Lint::ManualSignalCombinator,
        Lint::ManualSignalZipOp,
        Lint::ManualStringSignal,
        Lint::ManualTextMap,
        Lint::MissingTranslation,
        Lint::OrphanTranslation,
        Lint::NeedlessAnyview,
        Lint::NeedlessComputed,
        Lint::NeedlessListSnapshot,
        Lint::NeedlessSignalCast,
    ];
    assert(lints@ =~= Lint::all());
    let mut groups: Vec<(Group, Vec<Lint>)> = Vec::new();
    groups.push((Group::Correctness, group_members(&lints, Group::Correctness)));
    groups.push((Group::Suspicious, group_members(&lints, Group::Suspicious)));
    groups.push((Group::Style, group_members(&lints, Group::Style)));
    groups.push((Group::Pedantic, group_members(&lints, Group::Pedantic)));
    groups.push((Group::A11y, group_members(&lints, Group::A11y)));
    Registry { lints, groups }
}

/// Every registered lint is in the group that it declares and in no other.
pub proof fn one_group_each(lint: Lint, group: Group)
    requires
        Lint::all().contains(lint),
    ensures
        members(Lint::all(), group).contains(lint) <==> lint.declared_group() == group,
{
    let belongs = |lint: Lint| lint.declared_group() == group;
    let list = Lint::all();
    if members(list, group).contains(lint) {
        list.lemma_filter_contains_rev(belongs, lint);
        let i = members(list, group).index_of(lint);
        list.lemma_filter_pred(belongs, i);
    }
    if lint.declared_group() == group {
        list.lemma_filter_contains(belongs, list.index_of(lint));
    }
}

impl Lint {
    /// The words of what the lint is about.
    pub open spec fn words(self) -> Seq<Seq<char>> {
        match self {
            Lint::AnyviewNewInFreeFn => seq!["anyview"@, "new"@, "in"@, "free"@, "fn"@],
            Lint::BindingParameterByValue => seq!["binding"@, "parameter"@, "by"@, "value"@],
            Lint::BlockingInUiContext => seq!["blocking"@, "in"@, "ui"@, "context"@],
            Lint::ThreadSleepInUi => seq!["thread"@, "sleep"@, "in"@, "ui"@],
            Lint::CollectionItemSnapshot => seq!["collection"@, "item"@, "snapshot"@],
            Lint::ComputedParameter => seq!["computed"@, "parameter"@],
            Lint::DefaultBindingConstructor => seq!["default"@, "binding"@, "constructor"@],
            Lint::DiscardedWaitResult => seq!["discarded"@, "wait"@, "result"@],
            Lint::EmptyLabelLiteral => seq!["empty"@, "label"@, "literal"@],
            Lint::FixedChildrenInVec => seq!["fixed"@, "children"@, "in"@, "vec"@],
            Lint::PushLoopSeed => seq!["push"@, "loop"@, "seed"@],
            Lint::FormatInText => seq!["format"@, "in"@, "text"@],
            Lint::PluralBypass => seq!["plural"@, "bypass"@],
            Lint::HandlerCapturesBinding => seq!["handler"@, "captures"@, "binding"@],
            Lint::HardcodedThemeValue => seq!["hardcoded"@, "theme"@, "value"@],
            Lint::IfElseView => seq!["if"@, "else"@, "view"@],
            Lint::ImageWithoutLabel => seq!["image"@, "without"@, "label"@],
            Lint::ListInScroll => seq!["list"@, "in"@, "scroll"@],
            Lint::LiteralColorComponents => seq!["literal"@, "color"@, "components"@],
            Lint::LocalizedConcat => seq!["localized"@, "concat"@],
            Lint::LongTextKey => seq!["long"@, "text"@, "key"@],
            Lint::ManualBindingMutation => seq!["manual"@, "binding"@, "mutation"@],
            Lint::ManualColorErasure => seq!["manual"@, "color"@, "erasure"@],
            Lint::ManualComputed => seq!["manual"@, "computed"@],
            Lint::ManualEdgeInsets => seq!["manual"@, "edge"@, "insets"@],
            Lint::ManualIdentifiable => seq!["manual"@, "identifiable"@],
            Lint::ManualListMutation => seq!["manual"@, "list"@, "mutation"@],
            Lint::ManualMutedForeground => seq!["manual"@, "muted"@, "foreground"@],
            Lint::ManualSignalCombinator => seq!["manual"@, "signal"@, "combinator"@],
            Lint::ManualSignalZipOp => seq!["manual"@, "signal"@, "zip"@, "op"@],
            Lint::ManualStringSignal => seq!["manual"@, "string"@, "signal"@],
            Lint::ManualTextMap => seq!["manual"@, "text"@, "map"@],
            Lint::MissingTranslation => seq!["missing"@, "translation"@],
            Lint::OrphanTranslation => seq!["orphan"@, "translation"@],
            Lint::NeedlessAnyview => seq!["needless"@, "anyview"@],
            Lint::NeedlessComputed => seq!["needless"@, "computed"@],
            Lint::NeedlessListSnapshot => seq!["needless"@, "list"@, "snapshot"@],
            Lint::NeedlessSignalCast => seq!["needless"@, "signal"@, "cast"@],
        }
    }
}

proof fn lemma_two(a: Seq<char>, b: Seq<char>)
    ensures
        text::joined(seq![a, b], "_"@) == a + "_"@ + b,
{
    reveal_with_fuel(text::joined, 2);
    assert(seq![a, b].drop_last() =~= seq![a]);
}

proof fn lemma_three(a: Seq<char>, b: Seq<char>, c: Seq<char>)
    ensures
        text::joined(seq![a, b, c], "_"@) == a + "_"@ + b + "_"@ + c,
{
    lemma_two(a, b);
    assert(seq![a, b, c].drop_last() =~= seq![a, b]);
}

proof fn lemma_four(a: Seq<char>, b: Seq<char>, c: Seq<char>, d: Seq<char>)
    ensures
        text::joined(seq![a, b, c, d], "_"@) == a + "_"@ + b + "_"@ + c + "_"@ + d,
{
    lemma_three(a, b, c);
    assert(seq![a, b, c, d].drop_last() =~= seq![a, b, c]);
}

proof fn lemma_five(a: Seq<char>, b: Seq<char>, c: Seq<char>, d: Seq<char>, e: Seq<char>)
    ensures
        text::joined(seq![a, b, c, d, e], "_"@) == a + "_"@ + b + "_"@ + c + "_"@ + d + "_"@ + e,
{
    lemma_four(a, b, c, d);
    assert(seq![a, b, c, d, e].drop_last() =~= seq![a, b, c, d]);
}

/// A lint is called by the words of what it is about, with `_` between them.
#[verifier::rlimit(60)]
pub proof fn lints_are_called_by_their_words(lint: Lint)
    ensures
        lint.id() == text::joined(lint.words(), "_"@),
{
    reveal_strlit("_");
    match lint {
        Lint::AnyviewNewInFreeFn => {
            reveal_strlit("anyview_new_in_free_fn");
            reveal_strlit("anyview");
            reveal_strlit("new");
            reveal_strlit("in");
            reveal_strlit("free");
            reveal_strlit("fn");
            lemma_five("anyview"@, "new"@, "in"@, "free"@, "fn"@);
            assert("anyview_new_in_free_fn"@ =~= "anyview"@ + "_"@ + "new"@ + "_"@ + "in"@ + "_"@ + "free"@ + "_"@ + "fn"@);
        },
        Lint::BindingParameterByValue => {
            reveal_strlit("binding_parameter_by_value");
            reveal_strlit("binding");
            reveal_strlit("parameter");
            reveal_strlit("by");
            reveal_strlit("value");
            lemma_four("binding"@, "parameter"@, "by"@, "value"@);
            assert("binding_parameter_by_value"@ =~= "binding"@ + "_"@ + "parameter"@ + "_"@ + "by"@ + "_"@ + "value"@);
        },
        Lint::BlockingInUiContext => {
            reveal_strlit("blocking_in_ui_context");
            reveal_strlit("blocking");
            reveal_strlit("in");
            reveal_strlit("ui");
            reveal_strlit("context");
            lemma_four("blocking"@, "in"@, "ui"@, "context"@);
            assert("blocking_in_ui_context"@ =~= "blocking"@ + "_"@ + "in"@ + "_"@ + "ui"@ + "_"@ + "context"@);
        },
        Lint::ThreadSleepInUi => {
            reveal_strlit("thread_sleep_in_ui");
            reveal_strlit("thread");
            reveal_strlit("sleep");
            reveal_strlit("in");
            reveal_strlit("ui");
            lemma_four("thread"@, "sleep"@, "in"@, "ui"@);
            assert("thread_sleep_in_ui"@ =~= "thread"@ + "_"@ + "sleep"@ + "_"@ + "in"@ + "_"@ + "ui"@);
        },
        Lint::CollectionItemSnapshot => {
            reveal_strlit("collection_item_snapshot");
            reveal_strlit("collection");
            reveal_strlit("item");
            reveal_strlit("snapshot");
            lemma_three("collection"@, "item"@, "snapshot"@);
            assert("collection_item_snapshot"@ =~= "collection"@ + "_"@ + "item"@ + "_"@ + "snapshot"@);
        },
        Lint::ComputedParameter => {
            reveal_strlit("computed_parameter");
            reveal_strlit("computed");
            reveal_strlit("parameter");
            lemma_two("computed"@, "parameter"@);
            assert("computed_parameter"@ =~= "computed"@ + "_"@ + "parameter"@);
        },
        Lint::DefaultBindingConstructor => {
            reveal_strlit("default_binding_constructor");
            reveal_strlit("default");
            reveal_strlit("binding");
            reveal_strlit("constructor");
            lemma_three("default"@, "binding"@, "constructor"@);
            assert("default_binding_constructor"@ =~= "default"@ + "_"@ + "binding"@ + "_"@ + "constructor"@);
        },
        Lint::DiscardedWaitResult => {
            reveal_strlit("discarded_wait_result");
            reveal_strlit("discarded");
            reveal_strlit("wait");
            reveal_strlit("result");
            lemma_three("discarded"@, "wait"@, "result"@);
            assert("discarded_wait_result"@ =~= "discarded"@ + "_"@ + "wait"@ + "_"@ + "result"@);
        },
        Lint::EmptyLabelLiteral => {
            reveal_strlit("empty_label_literal");
            reveal_strlit("empty");
            reveal_strlit("label");
            reveal_strlit("literal");
            lemma_three("empty"@, "label"@, "literal"@);
            assert("empty_label_literal"@ =~= "empty"@ + "_"@ + "label"@ + "_"@ + "literal"@);
        },
        Lint::FixedChildrenInVec => {
            reveal_strlit("fixed_children_in_vec");
            reveal_strlit("fixed");
            reveal_strlit("children");
            reveal_strlit("in");
            reveal_strlit("vec");
            lemma_four("fixed"@, "children"@, "in"@, "vec"@);
            assert("fixed_children_in_vec"@ =~= "fixed"@ + "_"@ + "children"@ + "_"@ + "in"@ + "_"@ + "vec"@);
        },
        Lint::PushLoopSeed => {
            reveal_strlit("push_loop_seed");
            reveal_strlit("push");
            reveal_strlit("loop");
            reveal_strlit("seed");
            lemma_three("push"@, "loop"@, "seed"@);
            assert("push_loop_seed"@ =~= "push"@ + "_"@ + "loop"@ + "_"@ + "seed"@);
        },
        Lint::FormatInText => {
            reveal_strlit("format_in_text");
            reveal_strlit("format");
            reveal_strlit("in");
            reveal_strlit("text");
            lemma_three("format"@, "in"@, "text"@);
            assert("format_in_text"@ =~= "format"@ + "_"@ + "in"@ + "_"@ + "text"@);
        },
        Lint::PluralBypass => {
            reveal_strlit("plural_bypass");
            reveal_strlit("plural");
            reveal_strlit("bypass");
            lemma_two("plural"@, "bypass"@);
            assert("plural_bypass"@ =~= "plural"@ + "_"@ + "bypass"@);
        },
        Lint::HandlerCapturesBinding => {
            reveal_strlit("handler_captures_binding");
            reveal_strlit("handler");
            reveal_strlit("captures");
            reveal_strlit("binding");
            lemma_three("handler"@, "captures"@, "binding"@);
            assert("handler_captures_binding"@ =~= "handler"@ + "_"@ + "captures"@ + "_"@ + "binding"@);
        },
        Lint::HardcodedThemeValue => {
            reveal_strlit("hardcoded_theme_value");
            reveal_strlit("hardcoded");
            reveal_strlit("theme");
            reveal_strlit("value");
            lemma_three("hardcoded"@, "theme"@, "value"@);
            assert("hardcoded_theme_value"@ =~= "hardcoded"@ + "_"@ + "theme"@ + "_"@ + "value"@);
        },
        Lint::IfElseView => {
            reveal_strlit("if_else_view");
            reveal_strlit("if");
            reveal_strlit("else");
            reveal_strlit("view");
            lemma_three("if"@, "else"@, "view"@);
            assert("if_else_view"@ =~= "if"@ + "_"@ + "else"@ + "_"@ + "view"@);
        },
        Lint::ImageWithoutLabel => {
            reveal_strlit("image_without_label");
            reveal_strlit("image");
            reveal_strlit("without");
            reveal_strlit("label");
            lemma_three("image"@, "without"@, "label"@);
            assert("image_without_label"@ =~= "image"@ + "_"@ + "without"@ + "_"@ + "label"@);
        },
        Lint::ListInScroll => {
            reveal_strlit("list_in_scroll");
            reveal_strlit("list");
            reveal_strlit("in");
            reveal_strlit("scroll");
            lemma_three("list"@, "in"@, "scroll"@);
            assert("list_in_scroll"@ =~= "list"@ + "_"@ + "in"@ + "_"@ + "scroll"@);
        },
        Lint::LiteralColorComponents => {
            reveal_strlit("literal_color_components");
            reveal_strlit("literal");
            reveal_strlit("color");
            reveal_strlit("components");
            lemma_three("literal"@, "color"@, "components"@);
            assert("literal_color_components"@ =~= "literal"@ + "_"@ + "color"@ + "_"@ + "components"@);
        },
        Lint::LocalizedConcat => {
            reveal_strlit("localized_concat");
            reveal_strlit("localized");
            reveal_strlit("concat");
            lemma_two("localized"@, "concat"@);
            assert("localized_concat"@ =~= "localized"@ + "_"@ + "concat"@);
        },
        Lint::LongTextKey => {
            reveal_strlit("long_text_key");
            reveal_strlit("long");
            reveal_strlit("text");
            reveal_strlit("key");
            lemma_three("long"@, "text"@, "key"@);
            assert("long_text_key"@ =~= "long"@ + "_"@ + "text"@ + "_"@ + "key"@);
        },
        Lint::ManualBindingMutation => {
            reveal_strlit("manual_binding_mutation");
            reveal_strlit("manual");
            reveal_strlit("binding");
            reveal_strlit("mutation");
            lemma_three("manual"@, "binding"@, "mutation"@);
            assert("manual_binding_mutation"@ =~= "manual"@ + "_"@ + "binding"@ + "_"@ + "mutation"@);
        },
        Lint::ManualColorErasure => {
            reveal_strlit("manual_color_erasure");
            reveal_strlit("manual");
            reveal_strlit("color");
            reveal_strlit("erasure");
            lemma_three("manual"@, "color"@, "erasure"@);
            assert("manual_color_erasure"@ =~= "manual"@ + "_"@ + "color"@ + "_"@ + "erasure"@);
        },
        Lint::ManualComputed => {
            reveal_strlit("manual_computed");
            reveal_strlit("manual");
            reveal_strlit("computed");
            lemma_two("manual"@, "computed"@);
            assert("manual_computed"@ =~= "manual"@ + "_"@ + "computed"@);
        },
        Lint::ManualEdgeInsets => {
            reveal_strlit("manual_edge_insets");
            reveal_strlit("manual");
            reveal_strlit("edge");
            reveal_strlit("insets");
            lemma_three("manual"@, "edge"@, "insets"@);
            assert("manual_edge_insets"@ =~= "manual"@ + "_"@ + "edge"@ + "_"@ + "insets"@);
        },
        Lint::ManualIdentifiable => {
            reveal_strlit("manual_identifiable");
            reveal_strlit("manual");
            reveal_strlit("identifiable");
            lemma_two("manual"@, "identifiable"@);
            assert("manual_identifiable"@ =~= "manual"@ + "_"@ + "identifiable"@);
        },
        Lint::ManualListMutation => {
            reveal_strlit("manual_list_mutation");
            reveal_strlit("manual");
            reveal_strlit("list");
            reveal_strlit("mutation");
            lemma_three("manual"@, "list"@, "mutation"@);
            assert("manual_list_mutation"@ =~= "manual"@ + "_"@ + "list"@ + "_"@ + "mutation"@);
        },
        Lint::ManualMutedForeground => {
            reveal_strlit("manual_muted_foreground");
            reveal_strlit("manual");
            reveal_strlit("muted");
            reveal_strlit("foreground");
            lemma_three("manual"@, "muted"@, "foreground"@);
            assert("manual_muted_foreground"@ =~= "manual"@ + "_"@ + "muted"@ + "_"@ + "foreground"@);
        },
        Lint::ManualSignalCombinator => {
            reveal_strlit("manual_signal_combinator");
            reveal_strlit("manual");
            reveal_strlit("signal");
            reveal_strlit("combinator");
            lemma_three("manual"@, "signal"@, "combinator"@);
            assert("manual_signal_combinator"@ =~= "manual"@ + "_"@ + "signal"@ + "_"@ + "combinator"@);
        },
        Lint::ManualSignalZipOp => {
            reveal_strlit("manual_signal_zip_op");
            reveal_strlit("manual");
            reveal_strlit("signal");
            reveal_strlit("zip");
            reveal_strlit("op");
            lemma_four("manual"@, "signal"@, "zip"@, "op"@);
            assert("manual_signal_zip_op"@ =~= "manual"@ + "_"@ + "signal"@ + "_"@ + "zip"@ + "_"@ + "op"@);
        },
        Lint::ManualStringSignal => {
            reveal_strlit("manual_string_signal");
            reveal_strlit("manual");
            reveal_strlit("string");
            reveal_strlit("signal");
            lemma_three("manual"@, "string"@, "signal"@);
            assert("manual_string_signal"@ =~= "manual"@ + "_"@ + "string"@ + "_"@ + "signal"@);
        },
        Lint::ManualTextMap => {
            reveal_strlit("manual_text_map");
            reveal_strlit("manual");
            reveal_strlit("text");
            reveal_strlit("map");
            lemma_three("manual"@, "text"@, "map"@);
            assert("manual_text_map"@ =~= "manual"@ + "_"@ + "text"@ + "_"@ + "map"@);
        },
        Lint::MissingTranslation => {
            reveal_strlit("missing_translation");
            reveal_strlit("missing");
            reveal_strlit("translation");
            lemma_two("missing"@, "translation"@);
            assert("missing_translation"@ =~= "missing"@ + "_"@ + "translation"@);
        },
        Lint::OrphanTranslation => {
            reveal_strlit("orphan_translation");
            reveal_strlit("orphan");
            reveal_strlit("translation");
            lemma_two("orphan"@, "translation"@);
            assert("orphan_translation"@ =~= "orphan"@ + "_"@ + "translation"@);
        },
        Lint::NeedlessAnyview => {
            reveal_strlit("needless_anyview");
            reveal_strlit("needless");
            reveal_strlit("anyview");
            lemma_two("needless"@, "anyview"@);
            assert("needless_anyview"@ =~= "needless"@ + "_"@ + "anyview"@);
        },
        Lint::NeedlessComputed => {
            reveal_strlit("needless_computed");
            reveal_strlit("needless");
            reveal_strlit("computed");
            lemma_two("needless"@, "computed"@);
            assert("needless_computed"@ =~= "needless"@ + "_"@ + "computed"@);
        },
        Lint::NeedlessListSnapshot => {
            reveal_strlit("needless_list_snapshot");
            reveal_strlit("needless");
            reveal_strlit("list");
            reveal_strlit("snapshot");
            lemma_three("needless"@, "list"@, "snapshot"@);
            assert("needless_list_snapshot"@ =~= "needless"@ + "_"@ + "list"@ + "_"@ + "snapshot"@);
        },
        Lint::NeedlessSignalCast => {
            reveal_strlit("needless_signal_cast");
            reveal_strlit("needless");
            reveal_strlit("signal");
            reveal_strlit("cast");
            lemma_three("needless"@, "signal"@, "cast"@);
            assert("needless_signal_cast"@ =~= "needless"@ + "_"@ + "signal"@ + "_"@ + "cast"@);
        },
    }
}

/// The lints on what is written by hand or needlessly are matters of style, which
/// warn by default.
pub proof fn spelled_out_code_is_a_matter_of_style(lint: Lint)
    ensures
        lint.words()[0] == "manual"@ || lint.words()[0] == "needless"@ ==> lint.declared_group()
            == Group::Style && lint.declared_group().level() == Level::Warn,
{
    reveal_strlit("manual");
    reveal_strlit("needless");
    match lint {
        Lint::AnyviewNewInFreeFn => {
            reveal_strlit("anyview");
            assert("anyview"@.len() != "manual"@.len() || "anyview"@[1] != 'a' || "anyview"@[0] != 'm' || "anyview"@[2] != 'n');
            assert("anyview"@.len() != "needless"@.len() || "anyview"@[0] != 'n');
        },
        Lint::BindingParameterByValue => {
            reveal_strlit("binding");
            assert("binding"@.len() != "manual"@.len() || "binding"@[1] != 'a' || "binding"@[0] != 'm' || "binding"@[2] != 'n');
            assert("binding"@.len() != "needless"@.len() || "binding"@[0] != 'n');
        },
        Lint::BlockingInUiContext => {
            reveal_strlit("blocking");
            assert("blocking"@.len() != "manual"@.len() || "blocking"@[1] != 'a' || "blocking"@[0] != 'm' || "blocking"@[2] != 'n');
            assert("blocking"@.len() != "needless"@.len() || "blocking"@[0] != 'n');
        },
        Lint::ThreadSleepInUi => {
            reveal_strlit("thread");
            assert("thread"@.len() != "manual"@.len() || "thread"@[1] != 'a' || "thread"@[0] != 'm' || "thread"@[2] != 'n');
            assert("thread"@.len() != "needless"@.len() || "thread"@[0] != 'n');
        },
        Lint::CollectionItemSnapshot => {
            reveal_strlit("collection");
            assert("collection"@.len() != "manual"@.len() || "collection"@[1] != 'a' || "collection"@[0] != 'm' || "collection"@[2] != 'n');
            assert("collection"@.len() != "needless"@.len() || "collection"@[0] != 'n');
        },
        Lint::ComputedParameter => {
            reveal_strlit("computed");
            assert("computed"@.len() != "manual"@.len() || "computed"@[1] != 'a' || "computed"@[0] != 'm' || "computed"@[2] != 'n');
            assert("computed"@.len() != "needless"@.len() || "computed"@[0] != 'n');
        },
        Lint::DefaultBindingConstructor => {
            reveal_strlit("default");
            assert("default"@.len() != "manual"@.len() || "default"@[1] != 'a' || "default"@[0] != 'm' || "default"@[2] != 'n');
            assert("default"@.len() != "needless"@.len() || "default"@[0] != 'n');
        },
        Lint::DiscardedWaitResult => {
            reveal_strlit("discarded");
            assert("discarded"@.len() != "manual"@.len() || "discarded"@[1] != 'a' || "discarded"@[0] != 'm' || "discarded"@[2] != 'n');
            assert("discarded"@.len() != "needless"@.len() || "discarded"@[0] != 'n');
        },
        Lint::EmptyLabelLiteral => {
            reveal_strlit("empty");
            assert("empty"@.len() != "manual"@.len() || "empty"@[1] != 'a' || "empty"@[0] != 'm' || "empty"@[2] != 'n');
            assert("empty"@.len() != "needless"@.len() || "empty"@[0] != 'n');
        },
        Lint::FixedChildrenInVec => {
            reveal_strlit("fixed");
            assert("fixed"@.len() != "manual"@.len() || "fixed"@[1] != 'a' || "fixed"@[0] != 'm' || "fixed"@[2] != 'n');
            assert("fixed"@.len() != "needless"@.len() || "fixed"@[0] != 'n');
        },
        Lint::PushLoopSeed => {
            reveal_strlit("push");
            assert("push"@.len() != "manual"@.len() || "push"@[1] != 'a' || "push"@[0] != 'm' || "push"@[2] != 'n');
            assert("push"@.len() != "needless"@.len() || "push"@[0] != 'n');
        },
        Lint::FormatInText => {
            reveal_strlit("format");
            assert("format"@.len() != "manual"@.len() || "format"@[1] != 'a' || "format"@[0] != 'm' || "format"@[2] != 'n');
            assert("format"@.len() != "needless"@.len() || "format"@[0] != 'n');
        },
        Lint::PluralBypass => {
            reveal_strlit("plural");
            assert("plural"@.len() != "manual"@.len() || "plural"@[1] != 'a' || "plural"@[0] != 'm' || "plural"@[2] != 'n');
            assert("plural"@.len() != "needless"@.len() || "plural"@[0] != 'n');
        },
        Lint::HandlerCapturesBinding => {
            reveal_strlit("handler");
            assert("handler"@.len() != "manual"@.len() || "handler"@[1] != 'a' || "handler"@[0] != 'm' || "handler"@[2] != 'n');
            assert("handler"@.len() != "needless"@.len() || "handler"@[0] != 'n');
        },
        Lint::HardcodedThemeValue => {
            reveal_strlit("hardcoded");
            assert("hardcoded"@.len() != "manual"@.len() || "hardcoded"@[1] != 'a' || "hardcoded"@[0] != 'm' || "hardcoded"@[2] != 'n');
            assert("hardcoded"@.len() != "needless"@.len() || "hardcoded"@[0] != 'n');
        },
        Lint::IfElseView => {
            reveal_strlit("if");
            assert("if"@.len() != "manual"@.len() || "if"@[1] != 'a' || "if"@[0] != 'm' || "if"@[2] != 'n');
            assert("if"@.len() != "needless"@.len() || "if"@[0] != 'n');
        },
        Lint::ImageWithoutLabel => {
            reveal_strlit("image");
            assert("image"@.len() != "manual"@.len() || "image"@[1] != 'a' || "image"@[0] != 'm' || "image"@[2] != 'n');
            assert("image"@.len() != "needless"@.len() || "image"@[0] != 'n');
        },
        Lint::ListInScroll => {
            reveal_strlit("list");
            assert("list"@.len() != "manual"@.len() || "list"@[1] != 'a' || "list"@[0] != 'm' || "list"@[2] != 'n');
            assert("list"@.len() != "needless"@.len() || "list"@[0] != 'n');
        },
        Lint::LiteralColorComponents => {
            reveal_strlit("literal");
            assert("literal"@.len() != "manual"@.len() || "literal"@[1] != 'a' || "literal"@[0] != 'm' || "literal"@[2] != 'n');
            assert("literal"@.len() != "needless"@.len() || "literal"@[0] != 'n');
        },
        Lint::LocalizedConcat => {
            reveal_strlit("localized");
            assert("localized"@.len() != "manual"@.len() || "localized"@[1] != 'a' || "localized"@[0] != 'm' || "localized"@[2] != 'n');
            assert("localized"@.len() != "needless"@.len() || "localized"@[0] != 'n');
        },
        Lint::LongTextKey => {
            reveal_strlit("long");
            assert("long"@.len() != "manual"@.len() || "long"@[1] != 'a' || "long"@[0] != 'm' || "long"@[2] != 'n');
            assert("long"@.len() != "needless"@.len() || "long"@[0] != 'n');
        },
        Lint::MissingTranslation => {
            reveal_strlit("missing");
            assert("missing"@.len() != "manual"@.len() || "missing"@[1] != 'a' || "missing"@[0] != 'm' || "missing"@[2] != 'n');
            assert("missing"@.len() != "needless"@.len() || "missing"@[0] != 'n');
        },
        Lint::OrphanTranslation => {
            reveal_strlit("orphan");
            assert("orphan"@.len() != "manual"@.len() || "orphan"@[1] != 'a' || "orphan"@[0] != 'm' || "orphan"@[2] != 'n');
            assert("orphan"@.len() != "needless"@.len() || "orphan"@[0] != 'n');
        },
        _ => {},
    }
}

} // verus!
