//! The items of `std`, `nami` and `waterui` that the lints know, by the path of
//! the crate that defines them.

use crate::text;
use vstd::prelude::*;

verus! {

/// An item that a lint looks for.
#[derive(Clone, Copy, Debug, PartialEq, Eq, Structural)]
pub enum Known {
    /// `ToOwned::to_owned`: `text!` wraps every captured slot value in it.
    ToOwned,
    /// `ToString::to_string`: `|v| v.to_string()`.
    ToString,
    /// `Clone::clone`.
    Clone,
    /// `From::from`: `String::from(..)` and `Str::from(..)` wrappers.
    From,
    /// `Into::into`: `x.into()` conversions.
    Into,
    /// `Text::verbatim`: marks the text as never translated.
    TextVerbatim,
    /// `String`.
    StringTy,
    /// `Str`, the shared string.
    StrTy,
    /// `Option`.
    OptionTy,
    /// `Option::Some`.
    OptionSome,
    /// `Option::None`.
    OptionNone,
    /// `Option::map`.
    OptionMap,
    /// `Option::unwrap`.
    OptionUnwrap,
    /// `Result`.
    ResultTy,
    /// `SignalExt::map`: on every signal, through its blanket impl.
    SignalMap,
    /// `nami::map`: the free spelling of the signal transform.
    FreeMap,
    /// `SignalExt::zip`: the pair of two signals.
    SignalZip,
    /// `nami::zip`.
    FreeZip,
    /// `SignalExt::computed`: the method spelling of the erasure.
    SignalComputed,
    /// `SignalExt::with`: attaches metadata.
    SignalWith,
    /// `SignalExt::cached`.
    SignalCached,
    /// `SignalExt::distinct`.
    SignalDistinct,
    /// `SignalExt::inspect`.
    SignalInspect,
    /// `IntoSignal::into_signal`.
    IntoSignalFn,
    /// `IntoComputed::into_computed`: the trait form of the erasure.
    IntoComputedFn,
    /// The `text(..)` function.
    TextFn,
    /// `Text::localized_with`: the call that `text!` emits around its captures.
    LocalizedWith,
    /// The `IntoText` bound.
    IntoText,
    /// The `IntoLabel` bound.
    IntoLabel,
    /// `text!`.
    TextMacro,
    /// `Str` of `waterui_str`.
    WateruiStr,
    /// `EdgeInsets`.
    EdgeInsets,
    /// `EdgeInsets::all`.
    EdgeInsetsAll,
    /// `EdgeInsets::symmetric`.
    EdgeInsetsSymmetric,
    /// `EdgeInsets::new`.
    EdgeInsetsNew,
    /// The `Into` bound.
    IntoTrait,
    /// The `IntoComputed` bound.
    IntoComputedTrait,
    /// The `IntoSignal` bound.
    IntoSignalTrait,
    /// `Sized`: implicit on every parameter.
    SizedTrait,
    /// `ViewExt::padding_with`.
    PaddingWith,
    /// `Identifiable`.
    Identifiable,
    /// `IdentifiableExt::use_id`: gives a foreign type an identity.
    UseId,
    /// `IdentifiableExt::self_id`.
    SelfId,
    /// `Color`.
    Color,
    /// `ResolvedColor`: what a color value resolves to.
    ResolvedColor,
    /// The `.background(..)` bound; colorspace values are views, so they pass as a background too.
    IntoBackground,
    /// `Color::new`.
    ColorNew,
    /// `Color::srgb_f32`.
    ColorSrgbF32,
    /// `Color::srgb`.
    ColorSrgb,
    /// `Color::srgb_hex`.
    ColorSrgbHex,
    /// `Color::srgb_u32`.
    ColorSrgbU32,
    /// `Color::p3`.
    ColorP3,
    /// `Srgb::new`.
    SrgbNew,
    /// `Srgb::new_u8`.
    SrgbNewU8,
    /// `Srgb::from_u32`.
    SrgbFromU32,
    /// `AnyView`: the erasure target.
    AnyView,
    /// `AnyView::new`.
    AnyViewNew,
    /// `ViewExt::anyview`: the extension method producing `AnyView`.
    AnyViewExt,
    /// `View`: a bound that makes an argument position accept any view.
    ViewTrait,
    /// `ViewExt`: `-> impl ViewExt` also accepts `AnyView`.
    ViewExtTrait,
    /// `TupleViews`: the parameter is a tuple or array of views.
    TupleViews,
    /// `Views`: a collection of views.
    Views,
    /// `ViewBuilder`: the parameter produces a view.
    ViewBuilder,
    /// `Computed`: the boxed, read-only signal handle.
    Computed,
    /// `Computed::new`: the constructor spelling of the erasure.
    ComputedNew,
    /// `Signal::Output`.
    SignalOutput,
    /// The `Signal` bound.
    SignalTrait,
    /// `SignalExt`.
    SignalExtTrait,
    /// The `IntoSignalF32` bound, whose parameter performs the conversion itself.
    IntoSignalF32,
    /// `IntoF32::into_f32`.
    IntoF32Fn,
    /// `ToPrimitive::to_f32`.
    ToF32,
    /// `String::push_str`: in-place concatenation.
    PushStr,
    /// `List::snapshot`: the inherent `Vec<T>` clone.
    ListSnapshot,
    /// `List::replace`: the whole-vector republish that returns the previous contents.
    ListReplace,
    /// `Vec::new`: also what `vec![]` lowers to.
    VecNew,
    /// `Default::default`.
    DefaultFn,
    /// `Vec::push`.
    VecPush,
    /// `String::push`.
    StringPush,
    /// `Extend::extend`.
    ExtendFn,
    /// `core::iter::once`.
    IterOnce,
    /// `Str::from_static`.
    StrFromStatic,
    /// `Binding`: the writable signal handle.
    Binding,
    /// `Binding::set`: the inherent write that publishes a new value.
    BindingSet,
    /// `Binding::get_mut`: the inherent live-guard accessor.
    BindingGetMut,
    /// `Binding::with_mut`: the inherent closure-scoped mutation.
    BindingWithMut,
    /// `nami::binding`: a generic binding constructor.
    BindingFn,
    /// `Binding::container`: a generic binding constructor.
    BindingContainer,
    /// `String::new`.
    StringNew,
    /// `VecDeque::new`.
    VecDequeNew,
    /// `HashMap::new`.
    HashMapNew,
    /// `HashSet::new`.
    HashSetNew,
    /// `BTreeMap::new`.
    BTreeMapNew,
    /// `BTreeSet::new`.
    BTreeSetNew,
    /// `when`: the reactive choice between views.
    When,
    /// `View::body`.
    ViewBody,
    /// `GpuView::render`.
    GpuRender,
    /// `List`, the reactive list.
    ListTy,
    /// `vstack`.
    VstackFn,
    /// `hstack`.
    HstackFn,
    /// `zstack`.
    ZstackFn,
    /// `VStack::new`.
    VstackNew,
    /// `HStack::new`.
    HstackNew,
    /// `ZStack::new`.
    ZstackNew,
    /// `List::new`.
    ListNew,
    /// `List::push`.
    ListPush,
    /// `Query::wait_for_existence`.
    QueryExists,
    /// `Query::wait_for_nonexistence`.
    QueryGone,
    /// `Query::wait_for_value_eq`.
    QueryValue,
    /// `SemanticApp::wait_for_existence`.
    AppExists,
    /// `SemanticApp::wait_for_nonexistence`.
    AppGone,
    /// `SemanticApp::wait_for_value_eq`.
    AppValue,
    /// `ViewExt::a11y_label`.
    A11yLabel,
    /// `ViewExt::a11y_hidden`.
    A11yHidden,
    /// `scroll`.
    ScrollFn,
    /// `scroll_horizontal`.
    ScrollHorizontalFn,
    /// `ScrollView::vertical`.
    ScrollVertical,
    /// `ScrollView::horizontal`.
    ScrollHorizontal,
    /// `Metadata`: layout-transparent.
    Metadata,
    /// The `List` view.
    ListView,
    /// `ListBuilder`: a `List` with modifiers.
    ListBuilder,
    /// `ViewExt::foreground`.
    Foreground,
    /// `MutedForeground`: the token `muted()` installs.
    MutedForeground,
    /// `Color::oklch`.
    ColorOklch,
    /// `Srgb::from_hex`.
    SrgbFromHex,
    /// `Text::size`.
    TextSize,
    /// `Font::size`.
    FontSize,
    /// `StyledStr::size`.
    StyledSize,
    /// `Photo`.
    Photo,
    /// `Image`.
    Image,
    /// `Svg`.
    Svg,
    /// `Text`.
    Text,
    /// `Text::localized`.
    TextLocalized,
    /// `Text::localized_or`.
    TextLocalizedOr,
    /// `Text::new`.
    TextNew,
    /// `IntoText::into_text`.
    IntoTextFn,
}

impl Known {
    /// The item's path in its defining crate, never that of a re-export.
    pub open spec fn path(self) -> Seq<char> {
        match self {
            Known::ToOwned => "alloc::borrow::ToOwned::to_owned"@,
            Known::ToString => "alloc::string::ToString::to_string"@,
            Known::Clone => "core::clone::Clone::clone"@,
            Known::From => "core::convert::From::from"@,
            Known::Into => "core::convert::Into::into"@,
            Known::TextVerbatim => "waterui_text::text::Text::verbatim"@,
            Known::StringTy => "alloc::string::String"@,
            Known::StrTy => "suiteki::Str"@,
            Known::OptionTy => "core::option::Option"@,
            Known::OptionSome => "core::option::Option::Some"@,
            Known::OptionNone => "core::option::Option::None"@,
            Known::OptionMap => "core::option::Option::map"@,
            Known::OptionUnwrap => "core::option::Option::unwrap"@,
            Known::ResultTy => "core::result::Result"@,
            Known::SignalMap => "nami::reactive_core::ext::SignalExt::map"@,
            Known::FreeMap => "nami::reactive_core::map::map"@,
            Known::SignalZip => "nami::reactive_core::ext::SignalExt::zip"@,
            Known::FreeZip => "nami::reactive_core::zip::zip"@,
            Known::SignalComputed => "nami::reactive_core::ext::SignalExt::computed"@,
            Known::SignalWith => "nami::reactive_core::ext::SignalExt::with"@,
            Known::SignalCached => "nami::reactive_core::ext::SignalExt::cached"@,
            Known::SignalDistinct => "nami::reactive_core::ext::SignalExt::distinct"@,
            Known::SignalInspect => "nami::reactive_core::ext::SignalExt::inspect"@,
            Known::IntoSignalFn => "nami::reactive_core::signal::IntoSignal::into_signal"@,
            Known::IntoComputedFn => "nami::reactive_core::signal::IntoComputed::into_computed"@,
            Known::TextFn => "waterui_text::text::text"@,
            Known::LocalizedWith => "waterui_text::text::Text::localized_with"@,
            Known::IntoText => "waterui_text::text::IntoText"@,
            Known::IntoLabel => "waterui_controls::label::IntoLabel"@,
            Known::TextMacro => "waterui_macros::text"@,
            Known::WateruiStr => "waterui_str::Str"@,
            Known::EdgeInsets => "waterui_layout::modifiers::padding::EdgeInsets"@,
            Known::EdgeInsetsAll => "waterui_layout::modifiers::padding::EdgeInsets::all"@,
            Known::EdgeInsetsSymmetric => "waterui_layout::modifiers::padding::EdgeInsets::symmetric"@,
            Known::EdgeInsetsNew => "waterui_layout::modifiers::padding::EdgeInsets::new"@,
            Known::IntoTrait => "core::convert::Into"@,
            Known::IntoComputedTrait => "nami::reactive_core::signal::IntoComputed"@,
            Known::IntoSignalTrait => "nami::reactive_core::signal::IntoSignal"@,
            Known::SizedTrait => "core::marker::Sized"@,
            Known::PaddingWith => "waterui_internal::view::ViewExt::padding_with"@,
            Known::Identifiable => "waterui_core::foundation::id::Identifiable"@,
            Known::UseId => "waterui_core::foundation::id::IdentifiableExt::use_id"@,
            Known::SelfId => "waterui_core::foundation::id::IdentifiableExt::self_id"@,
            Known::Color => "waterui_graphics::color::Color"@,
            Known::ResolvedColor => "waterui_graphics::color::ResolvedColor"@,
            Known::IntoBackground => "waterui_internal::appearance::background::IntoBackground"@,
            Known::ColorNew => "waterui_graphics::color::Color::new"@,
            Known::ColorSrgbF32 => "waterui_graphics::color::Color::srgb_f32"@,
            Known::ColorSrgb => "waterui_graphics::color::Color::srgb"@,
            Known::ColorSrgbHex => "waterui_graphics::color::Color::srgb_hex"@,
            Known::ColorSrgbU32 => "waterui_graphics::color::Color::srgb_u32"@,
            Known::ColorP3 => "waterui_graphics::color::Color::p3"@,
            Known::SrgbNew => "waterui_graphics::color::srgb::Srgb::new"@,
            Known::SrgbNewU8 => "waterui_graphics::color::srgb::Srgb::new_u8"@,
            Known::SrgbFromU32 => "waterui_graphics::color::srgb::Srgb::from_u32"@,
            Known::AnyView => "waterui_core::components::anyview::AnyView"@,
            Known::AnyViewNew => "waterui_core::components::anyview::AnyView::new"@,
            Known::AnyViewExt => "waterui_internal::view::ViewExt::anyview"@,
            Known::ViewTrait => "waterui_core::ui::view::View"@,
            Known::ViewExtTrait => "waterui_internal::view::ViewExt"@,
            Known::TupleViews => "waterui_core::ui::view::TupleViews"@,
            Known::Views => "waterui_core::ui::views::Views"@,
            Known::ViewBuilder => "waterui_core::foundation::handler::ViewBuilder"@,
            Known::Computed => "nami::reactive_core::signal::computed::Computed"@,
            Known::ComputedNew => "nami::reactive_core::signal::computed::Computed::new"@,
            Known::SignalOutput => "nami_core::Signal::Output"@,
            Known::SignalTrait => "nami_core::Signal"@,
            Known::SignalExtTrait => "nami::reactive_core::ext::SignalExt"@,
            Known::IntoSignalF32 => "waterui_core::state::computed_f32::IntoSignalF32"@,
            Known::IntoF32Fn => "waterui_core::state::computed_f32::IntoF32::into_f32"@,
            Known::ToF32 => "num_traits::cast::ToPrimitive::to_f32"@,
            Known::PushStr => "alloc::string::String::push_str"@,
            Known::ListSnapshot => "nami::data::collection::List::snapshot"@,
            Known::ListReplace => "nami::data::collection::List::replace"@,
            Known::VecNew => "alloc::vec::Vec::new"@,
            Known::DefaultFn => "core::default::Default::default"@,
            Known::VecPush => "alloc::vec::Vec::push"@,
            Known::StringPush => "alloc::string::String::push"@,
            Known::ExtendFn => "core::iter::traits::collect::Extend::extend"@,
            Known::IterOnce => "core::iter::sources::once::once"@,
            Known::StrFromStatic => "suiteki::Str::from_static"@,
            Known::Binding => "nami::reactive_core::binding::Binding"@,
            Known::BindingSet => "nami::reactive_core::binding::Binding::set"@,
            Known::BindingGetMut => "nami::reactive_core::binding::Binding::get_mut"@,
            Known::BindingWithMut => "nami::reactive_core::binding::Binding::with_mut"@,
            Known::BindingFn => "nami::reactive_core::binding::binding"@,
            Known::BindingContainer => "nami::reactive_core::binding::Binding::container"@,
            Known::StringNew => "alloc::string::String::new"@,
            Known::VecDequeNew => "alloc::collections::vec_deque::VecDeque::new"@,
            Known::HashMapNew => "std::collections::hash::map::HashMap::new"@,
            Known::HashSetNew => "std::collections::hash::set::HashSet::new"@,
            Known::BTreeMapNew => "alloc::collections::btree::map::BTreeMap::new"@,
            Known::BTreeSetNew => "alloc::collections::btree::set::BTreeSet::new"@,
            Known::When => "waterui_internal::widget::condition::when"@,
            Known::ViewBody => "waterui_core::ui::view::View::body"@,
            Known::GpuRender => "waterui_graphics::gpu::gpu_surface::GpuView::render"@,
            Known::ListTy => "nami::data::collection::List"@,
            Known::VstackFn => "waterui_layout::stack::vstack::vstack"@,
            Known::HstackFn => "waterui_layout::stack::hstack::hstack"@,
            Known::ZstackFn => "waterui_layout::stack::zstack::zstack"@,
            Known::VstackNew => "waterui_layout::stack::vstack::VStack::new"@,
            Known::HstackNew => "waterui_layout::stack::hstack::HStack::new"@,
            Known::ZstackNew => "waterui_layout::stack::zstack::ZStack::new"@,
            Known::ListNew => "nami::data::collection::List::new"@,
            Known::ListPush => "nami::data::collection::List::push"@,
            Known::QueryExists => "waterui_testing::query::Query::wait_for_existence"@,
            Known::QueryGone => "waterui_testing::query::Query::wait_for_nonexistence"@,
            Known::QueryValue => "waterui_testing::query::Query::wait_for_value_eq"@,
            Known::AppExists => "waterui_testing::app::SemanticApp::wait_for_existence"@,
            Known::AppGone => "waterui_testing::app::SemanticApp::wait_for_nonexistence"@,
            Known::AppValue => "waterui_testing::app::SemanticApp::wait_for_value_eq"@,
            Known::A11yLabel => "waterui_internal::view::ViewExt::a11y_label"@,
            Known::A11yHidden => "waterui_internal::view::ViewExt::a11y_hidden"@,
            Known::ScrollFn => "waterui_layout::collections::scroll::scroll"@,
            Known::ScrollHorizontalFn => "waterui_layout::collections::scroll::scroll_horizontal"@,
            Known::ScrollVertical => "waterui_layout::collections::scroll::ScrollView::vertical"@,
            Known::ScrollHorizontal => "waterui_layout::collections::scroll::ScrollView::horizontal"@,
            Known::Metadata => "waterui_core::components::metadata::Metadata"@,
            Known::ListView => "waterui_internal::component::list::List"@,
            Known::ListBuilder => "waterui_internal::component::list::ListBuilder"@,
            Known::Foreground => "waterui_internal::view::ViewExt::foreground"@,
            Known::MutedForeground => "waterui_internal::theme::color::MutedForeground"@,
            Known::ColorOklch => "waterui_graphics::color::Color::oklch"@,
            Known::SrgbFromHex => "waterui_graphics::color::srgb::Srgb::from_hex"@,
            Known::TextSize => "waterui_text::text::Text::size"@,
            Known::FontSize => "waterui_text::font::Font::size"@,
            Known::StyledSize => "waterui_text::styled::StyledStr::size"@,
            Known::Photo => "waterui_media::photo::Photo"@,
            Known::Image => "waterui_image::image::Image"@,
            Known::Svg => "waterui_svg::Svg"@,
            Known::Text => "waterui_text::text::Text"@,
            Known::TextLocalized => "waterui_text::text::Text::localized"@,
            Known::TextLocalizedOr => "waterui_text::text::Text::localized_or"@,
            Known::TextNew => "waterui_text::text::Text::new"@,
            Known::IntoTextFn => "waterui_text::text::IntoText::into_text"@,
        }
    }

    /// The segments of the item's path.
    pub open spec fn segments(self) -> Seq<Seq<char>> {
        text::pieces(self.path(), "::"@)
    }

    /// The item's path in its defining crate.
    pub fn text(self) -> (r: &'static str)
        ensures
            r@ == self.path(),
    {
        match self {
            Known::ToOwned => "alloc::borrow::ToOwned::to_owned",
            Known::ToString => "alloc::string::ToString::to_string",
            Known::Clone => "core::clone::Clone::clone",
            Known::From => "core::convert::From::from",
            Known::Into => "core::convert::Into::into",
            Known::TextVerbatim => "waterui_text::text::Text::verbatim",
            Known::StringTy => "alloc::string::String",
            Known::StrTy => "suiteki::Str",
            Known::OptionTy => "core::option::Option",
            Known::OptionSome => "core::option::Option::Some",
            Known::OptionNone => "core::option::Option::None",
            Known::OptionMap => "core::option::Option::map",
            Known::OptionUnwrap => "core::option::Option::unwrap",
            Known::ResultTy => "core::result::Result",
            Known::SignalMap => "nami::reactive_core::ext::SignalExt::map",
            Known::FreeMap => "nami::reactive_core::map::map",
            Known::SignalZip => "nami::reactive_core::ext::SignalExt::zip",
            Known::FreeZip => "nami::reactive_core::zip::zip",
            Known::SignalComputed => "nami::reactive_core::ext::SignalExt::computed",
            Known::SignalWith => "nami::reactive_core::ext::SignalExt::with",
            Known::SignalCached => "nami::reactive_core::ext::SignalExt::cached",
            Known::SignalDistinct => "nami::reactive_core::ext::SignalExt::distinct",
            Known::SignalInspect => "nami::reactive_core::ext::SignalExt::inspect",
            Known::IntoSignalFn => "nami::reactive_core::signal::IntoSignal::into_signal",
            Known::IntoComputedFn => "nami::reactive_core::signal::IntoComputed::into_computed",
            Known::TextFn => "waterui_text::text::text",
            Known::LocalizedWith => "waterui_text::text::Text::localized_with",
            Known::IntoText => "waterui_text::text::IntoText",
            Known::IntoLabel => "waterui_controls::label::IntoLabel",
            Known::TextMacro => "waterui_macros::text",
            Known::WateruiStr => "waterui_str::Str",
            Known::EdgeInsets => "waterui_layout::modifiers::padding::EdgeInsets",
            Known::EdgeInsetsAll => "waterui_layout::modifiers::padding::EdgeInsets::all",
            Known::EdgeInsetsSymmetric => "waterui_layout::modifiers::padding::EdgeInsets::symmetric",
            Known::EdgeInsetsNew => "waterui_layout::modifiers::padding::EdgeInsets::new",
            Known::IntoTrait => "core::convert::Into",
            Known::IntoComputedTrait => "nami::reactive_core::signal::IntoComputed",
            Known::IntoSignalTrait => "nami::reactive_core::signal::IntoSignal",
            Known::SizedTrait => "core::marker::Sized",
            Known::PaddingWith => "waterui_internal::view::ViewExt::padding_with",
            Known::Identifiable => "waterui_core::foundation::id::Identifiable",
            Known::UseId => "waterui_core::foundation::id::IdentifiableExt::use_id",
            Known::SelfId => "waterui_core::foundation::id::IdentifiableExt::self_id",
            Known::Color => "waterui_graphics::color::Color",
            Known::ResolvedColor => "waterui_graphics::color::ResolvedColor",
            Known::IntoBackground => "waterui_internal::appearance::background::IntoBackground",
            Known::ColorNew => "waterui_graphics::color::Color::new",
            Known::ColorSrgbF32 => "waterui_graphics::color::Color::srgb_f32",
            Known::ColorSrgb => "waterui_graphics::color::Color::srgb",
            Known::ColorSrgbHex => "waterui_graphics::color::Color::srgb_hex",
            Known::ColorSrgbU32 => "waterui_graphics::color::Color::srgb_u32",
            Known::ColorP3 => "waterui_graphics::color::Color::p3",
            Known::SrgbNew => "waterui_graphics::color::srgb::Srgb::new",
            Known::SrgbNewU8 => "waterui_graphics::color::srgb::Srgb::new_u8",
            Known::SrgbFromU32 => "waterui_graphics::color::srgb::Srgb::from_u32",
            Known::AnyView => "waterui_core::components::anyview::AnyView",
            Known::AnyViewNew => "waterui_core::components::anyview::AnyView::new",
            Known::AnyViewExt => "waterui_internal::view::ViewExt::anyview",
            Known::ViewTrait => "waterui_core::ui::view::View",
            Known::ViewExtTrait => "waterui_internal::view::ViewExt",
            Known::TupleViews => "waterui_core::ui::view::TupleViews",
            Known::Views => "waterui_core::ui::views::Views",
            Known::ViewBuilder => "waterui_core::foundation::handler::ViewBuilder",
            Known::Computed => "nami::reactive_core::signal::computed::Computed",
            Known::ComputedNew => "nami::reactive_core::signal::computed::Computed::new",
            Known::SignalOutput => "nami_core::Signal::Output",
            Known::SignalTrait => "nami_core::Signal",
            Known::SignalExtTrait => "nami::reactive_core::ext::SignalExt",
            Known::IntoSignalF32 => "waterui_core::state::computed_f32::IntoSignalF32",
            Known::IntoF32Fn => "waterui_core::state::computed_f32::IntoF32::into_f32",
            Known::ToF32 => "num_traits::cast::ToPrimitive::to_f32",
            Known::PushStr => "alloc::string::String::push_str",
            Known::ListSnapshot => "nami::data::collection::List::snapshot",
            Known::ListReplace => "nami::data::collection::List::replace",
            Known::VecNew => "alloc::vec::Vec::new",
            Known::DefaultFn => "core::default::Default::default",
            Known::VecPush => "alloc::vec::Vec::push",
            Known::StringPush => "alloc::string::String::push",
            Known::ExtendFn => "core::iter::traits::collect::Extend::extend",
            Known::IterOnce => "core::iter::sources::once::once",
            Known::StrFromStatic => "suiteki::Str::from_static",
            Known::Binding => "nami::reactive_core::binding::Binding",
            Known::BindingSet => "nami::reactive_core::binding::Binding::set",
            Known::BindingGetMut => "nami::reactive_core::binding::Binding::get_mut",
            Known::BindingWithMut => "nami::reactive_core::binding::Binding::with_mut",
            Known::BindingFn => "nami::reactive_core::binding::binding",
            Known::BindingContainer => "nami::reactive_core::binding::Binding::container",
            Known::StringNew => "alloc::string::String::new",
            Known::VecDequeNew => "alloc::collections::vec_deque::VecDeque::new",
            Known::HashMapNew => "std::collections::hash::map::HashMap::new",
            Known::HashSetNew => "std::collections::hash::set::HashSet::new",
            Known::BTreeMapNew => "alloc::collections::btree::map::BTreeMap::new",
            Known::BTreeSetNew => "alloc::collections::btree::set::BTreeSet::new",
            Known::When => "waterui_internal::widget::condition::when",
            Known::ViewBody => "waterui_core::ui::view::View::body",
            Known::GpuRender => "waterui_graphics::gpu::gpu_surface::GpuView::render",
            Known::ListTy => "nami::data::collection::List",
            Known::VstackFn => "waterui_layout::stack::vstack::vstack",
            Known::HstackFn => "waterui_layout::stack::hstack::hstack",
            Known::ZstackFn => "waterui_layout::stack::zstack::zstack",
            Known::VstackNew => "waterui_layout::stack::vstack::VStack::new",
            Known::HstackNew => "waterui_layout::stack::hstack::HStack::new",
            Known::ZstackNew => "waterui_layout::stack::zstack::ZStack::new",
            Known::ListNew => "nami::data::collection::List::new",
            Known::ListPush => "nami::data::collection::List::push",
            Known::QueryExists => "waterui_testing::query::Query::wait_for_existence",
            Known::QueryGone => "waterui_testing::query::Query::wait_for_nonexistence",
            Known::QueryValue => "waterui_testing::query::Query::wait_for_value_eq",
            Known::AppExists => "waterui_testing::app::SemanticApp::wait_for_existence",
            Known::AppGone => "waterui_testing::app::SemanticApp::wait_for_nonexistence",
            Known::AppValue => "waterui_testing::app::SemanticApp::wait_for_value_eq",
            Known::A11yLabel => "waterui_internal::view::ViewExt::a11y_label",
            Known::A11yHidden => "waterui_internal::view::ViewExt::a11y_hidden",
            Known::ScrollFn => "waterui_layout::collections::scroll::scroll",
            Known::ScrollHorizontalFn => "waterui_layout::collections::scroll::scroll_horizontal",
            Known::ScrollVertical => "waterui_layout::collections::scroll::ScrollView::vertical",
            Known::ScrollHorizontal => "waterui_layout::collections::scroll::ScrollView::horizontal",
            Known::Metadata => "waterui_core::components::metadata::Metadata",
            Known::ListView => "waterui_internal::component::list::List",
            Known::ListBuilder => "waterui_internal::component::list::ListBuilder",
            Known::Foreground => "waterui_internal::view::ViewExt::foreground",
            Known::MutedForeground => "waterui_internal::theme::color::MutedForeground",
            Known::ColorOklch => "waterui_graphics::color::Color::oklch",
            Known::SrgbFromHex => "waterui_graphics::color::srgb::Srgb::from_hex",
            Known::TextSize => "waterui_text::text::Text::size",
            Known::FontSize => "waterui_text::font::Font::size",
            Known::StyledSize => "waterui_text::styled::StyledStr::size",
            Known::Photo => "waterui_media::photo::Photo",
            Known::Image => "waterui_image::image::Image",
            Known::Svg => "waterui_svg::Svg",
            Known::Text => "waterui_text::text::Text",
            Known::TextLocalized => "waterui_text::text::Text::localized",
            Known::TextLocalizedOr => "waterui_text::text::Text::localized_or",
            Known::TextNew => "waterui_text::text::Text::new",
            Known::IntoTextFn => "waterui_text::text::IntoText::into_text",
        }
    }
}

/// One of `items` is at `path`.
pub open spec fn one_of(path: Seq<Seq<char>>, items: Seq<Known>) -> bool {
    exists|i: int| 0 <= i < items.len() && path == #[trigger] items[i].segments()
}

/// Whether `path` is that of the item, segment by segment.
pub fn def_path_eq(path: &Vec<String>, item: Known) -> (r: bool)
    ensures
        r == (text::texts(path@) == item.segments()),
{
    proof {
        reveal_strlit("::");
    }
    let own: Vec<String> = text::split(item.text(), "::");
    if path.len() != own.len() {
        assert(text::texts(path@).len() != text::texts(own@).len());
        return false;
    }
    let mut i: usize = 0;
    while i < path.len()
        invariant
            i <= path.len(),
            path.len() == own.len(),
            text::texts(own@) == item.segments(),
            forall|k: int| 0 <= k < i ==> path@[k]@ == #[trigger] own@[k]@,
        decreases path.len() - i,
    {
        if !text::str_eq(path[i].as_str(), own[i].as_str()) {
            assert(text::texts(path@)[i as int] != text::texts(own@)[i as int]);
            return false;
        }
        i = i + 1;
    }
    assert(text::texts(path@) =~= text::texts(own@));
    true
}

/// Whether `path` is that of one of `items`.
pub fn def_path_in(path: &Vec<String>, items: &[Known]) -> (r: bool)
    ensures
        r == one_of(text::texts(path@), items@),
{
    let mut i: usize = 0;
    while i < items.len()
        invariant
            i <= items.len(),
            forall|k: int| 0 <= k < i ==> text::texts(path@) != #[trigger] items@[k].segments(),
        decreases items.len() - i,
    {
        if def_path_eq(path, items[i]) {
            assert(text::texts(path@) == items@[i as int].segments());
            return true;
        }
        i = i + 1;
    }
    false
}

} // verus!
