//! System timing checks.
//!
//! Each check begins with its own reserved word. Once that word has matched,
//! the input can only be that check, so every later failure is committed.
use vstd::prelude::*;
use crate::combinator::Parsed;
use crate::combinator::commit;
use crate::combinator::cut;
use crate::combinator::delimited;
use crate::combinator::lift;
use crate::combinator::opt;
use crate::combinator::optional;
use crate::combinator::or_else;
use crate::combinator::rest;
use crate::combinator::seq3;
use crate::combinator::seq4;
use crate::combinator::seq6;
use crate::combinator::seq8;
use crate::combinator::variant;
use crate::combinator::well_spanned;
use crate::context::Input;
use crate::context::Parser;
use crate::failure::Failure;
use crate::node::Paren;
use crate::parser::expressions::expressions::expression;
use crate::parser::nesting::Nesting;
use crate::parser::nesting::nesting;
use crate::parser::specify_section::system_timing_check_command_arguments::ControlledReferenceEvent;
use crate::parser::specify_section::system_timing_check_command_arguments::DataEvent;
use crate::parser::specify_section::system_timing_check_command_arguments::DelayedData;
use crate::parser::specify_section::system_timing_check_command_arguments::DelayedReference;
use crate::parser::specify_section::system_timing_check_command_arguments::EndEdgeOffset;
use crate::parser::specify_section::system_timing_check_command_arguments::EventBasedFlag;
use crate::parser::specify_section::system_timing_check_command_arguments::Notifier;
use crate::parser::specify_section::system_timing_check_command_arguments::NotifierAndConditionsArgument;
use crate::parser::specify_section::system_timing_check_command_arguments::NotifierAndFlagsArgument;
use crate::parser::specify_section::system_timing_check_command_arguments::NotifierArgument;
use crate::parser::specify_section::system_timing_check_command_arguments::ReferenceEvent;
use crate::parser::specify_section::system_timing_check_command_arguments::RemainActiveFlag;
use crate::parser::specify_section::system_timing_check_command_arguments::StartEdgeOffset;
use crate::parser::specify_section::system_timing_check_command_arguments::Threshold;
use crate::parser::specify_section::system_timing_check_command_arguments::TimecheckCondition;
use crate::parser::specify_section::system_timing_check_command_arguments::TimestampCondition;
use crate::parser::specify_section::system_timing_check_command_arguments::TimingCheckLimit;
use crate::parser::specify_section::system_timing_check_command_arguments::delayed_data_argument_tree;
use crate::parser::specify_section::system_timing_check_command_arguments::delayed_reference_argument_tree;
use crate::parser::specify_section::system_timing_check_command_arguments::event_based_flag_argument_tree;
use crate::parser::specify_section::system_timing_check_command_arguments::notifier_and_conditions_argument;
use crate::parser::specify_section::system_timing_check_command_arguments::notifier_and_conditions_argument_tree;
use crate::parser::specify_section::system_timing_check_command_arguments::notifier_and_flags_argument;
use crate::parser::specify_section::system_timing_check_command_arguments::notifier_and_flags_argument_tree;
use crate::parser::specify_section::system_timing_check_command_arguments::notifier_argument;
use crate::parser::specify_section::system_timing_check_command_arguments::notifier_argument_tree;
use crate::parser::specify_section::system_timing_check_command_arguments::remain_active_flag_argument_tree;
use crate::parser::specify_section::system_timing_check_command_arguments::spec_notifier_and_conditions_argument;
use crate::parser::specify_section::system_timing_check_command_arguments::spec_notifier_and_flags_argument;
use crate::parser::specify_section::system_timing_check_command_arguments::spec_notifier_argument;
use crate::parser::specify_section::system_timing_check_command_arguments::timecheck_condition_argument_tree;
use crate::parser::specify_section::system_timing_check_command_arguments::timestamp_condition_argument_tree;
use crate::parser::specify_section::system_timing_check_event_definitions::controlled_timing_check_event;
use crate::parser::specify_section::system_timing_check_event_definitions::spec_controlled_timing_check_event;
use crate::parser::specify_section::system_timing_check_event_definitions::spec_timing_check_event;
use crate::parser::specify_section::system_timing_check_event_definitions::timing_check_event;
use crate::span::Span;
use crate::token::Keyword;
use crate::token::Symbol;
use crate::token::keyword;
use crate::token::spec_keyword;
use crate::token::spec_symbol;
use crate::token::symbol;
use crate::tree::Tree;
use crate::tree::group_layout;
use crate::tree::group_leaves;
use crate::tree::leaves_after;

verus! {

broadcast use {group_layout, group_leaves};

/// `setup_timing_check ::= "$setup" "(" setup_timing_check_arguments ")" ";"`
#[derive(Debug)]
pub struct SetupTimingCheck {
    pub nodes: (
        Keyword,
        Paren<
            (
                DataEvent,
                Symbol,
                ReferenceEvent,
                Symbol,
                TimingCheckLimit,
                Option<(Symbol, Option<Notifier>)>,
            ),
        >,
        Symbol,
    ),
}

/// `hold_timing_check ::= "$hold" "(" hold_timing_check_arguments ")" ";"`
#[derive(Debug)]
pub struct HoldTimingCheck {
    pub nodes: (
        Keyword,
        Paren<
            (
                ReferenceEvent,
                Symbol,
                DataEvent,
                Symbol,
                TimingCheckLimit,
                Option<(Symbol, Option<Notifier>)>,
            ),
        >,
        Symbol,
    ),
}

/// `setuphold_timing_check ::= "$setuphold" "(" setuphold_timing_check_arguments ")"
/// ";"`
#[derive(Debug)]
pub struct SetupholdTimingCheck {
    pub nodes: (
        Keyword,
        Paren<
            (
                ReferenceEvent,
                Symbol,
                DataEvent,
                Symbol,
                TimingCheckLimit,
                Symbol,
                TimingCheckLimit,
                Option<
                    (
                        Symbol,
                        Option<Notifier>,
                        Option<
                            (
                                Symbol,
                                Option<TimestampCondition>,
                                Option<
                                    (
                                        Symbol,
                                        Option<TimecheckCondition>,
                                        Option<
                                            (
                                                Symbol,
                                                Option<DelayedReference>,
                                                Option<(Symbol, Option<DelayedData>)>,
                                            ),
                                        >,
                                    ),
                                >,
                            ),
                        >,
                    ),
                >,
            ),
        >,
        Symbol,
    ),
}

/// `recovery_timing_check ::= "$recovery" "(" recovery_timing_check_arguments ")" ";"`
#[derive(Debug)]
pub struct RecoveryTimingCheck {
    pub nodes: (
        Keyword,
        Paren<
            (
                ReferenceEvent,
                Symbol,
                DataEvent,
                Symbol,
                TimingCheckLimit,
                Option<(Symbol, Option<Notifier>)>,
            ),
        >,
        Symbol,
    ),
}

/// `removal_timing_check ::= "$removal" "(" removal_timing_check_arguments ")" ";"`
#[derive(Debug)]
pub struct RemovalTimingCheck {
    pub nodes: (
        Keyword,
        Paren<
            (
                ReferenceEvent,
                Symbol,
                DataEvent,
                Symbol,
                TimingCheckLimit,
                Option<(Symbol, Option<Notifier>)>,
            ),
        >,
        Symbol,
    ),
}

/// `recrem_timing_check ::= "$recrem" "(" recrem_timing_check_arguments ")" ";"`
#[derive(Debug)]
pub struct RecremTimingCheck {
    pub nodes: (
        Keyword,
        Paren<
            (
                ReferenceEvent,
                Symbol,
                DataEvent,
                Symbol,
                TimingCheckLimit,
                Symbol,
                TimingCheckLimit,
                Option<
                    (
                        Symbol,
                        Option<Notifier>,
                        Option<
                            (
                                Symbol,
                                Option<TimestampCondition>,
                                Option<
                                    (
                                        Symbol,
                                        Option<TimecheckCondition>,
                                        Option<
                                            (
                                                Symbol,
                                                Option<DelayedReference>,
                                                Option<(Symbol, Option<DelayedData>)>,
                                            ),
                                        >,
                                    ),
                                >,
                            ),
                        >,
                    ),
                >,
            ),
        >,
        Symbol,
    ),
}

/// `skew_timing_check ::= "$skew" "(" skew_timing_check_arguments ")" ";"`
#[derive(Debug)]
pub struct SkewTimingCheck {
    pub nodes: (
        Keyword,
        Paren<
            (
                ReferenceEvent,
                Symbol,
                DataEvent,
                Symbol,
                TimingCheckLimit,
                Option<(Symbol, Option<Notifier>)>,
            ),
        >,
        Symbol,
    ),
}

/// `timeskew_timing_check ::= "$timeskew" "(" timeskew_timing_check_arguments ")" ";"`
#[derive(Debug)]
pub struct TimeskewTimingCheck {
    pub nodes: (
        Keyword,
        Paren<
            (
                ReferenceEvent,
                Symbol,
                DataEvent,
                Symbol,
                TimingCheckLimit,
                Option<
                    (
                        Symbol,
                        Option<Notifier>,
                        Option<
                            (
                                Symbol,
                                Option<EventBasedFlag>,
                                Option<(Symbol, Option<RemainActiveFlag>)>,
                            ),
                        >,
                    ),
                >,
            ),
        >,
        Symbol,
    ),
}

/// `fullskew_timing_check ::= "$fullskew" "(" fullskew_timing_check_arguments ")" ";"`
#[derive(Debug)]
pub struct FullskewTimingCheck {
    pub nodes: (
        Keyword,
        Paren<
            (
                ReferenceEvent,
                Symbol,
                DataEvent,
                Symbol,
                TimingCheckLimit,
                Symbol,
                TimingCheckLimit,
                Option<
                    (
                        Symbol,
                        Option<Notifier>,
                        Option<
                            (
                                Symbol,
                                Option<EventBasedFlag>,
                                Option<(Symbol, Option<RemainActiveFlag>)>,
                            ),
                        >,
                    ),
                >,
            ),
        >,
        Symbol,
    ),
}

/// `period_timing_check ::= "$period" "(" period_timing_check_arguments ")" ";"`
#[derive(Debug)]
pub struct PeriodTimingCheck {
    pub nodes: (
        Keyword,
        Paren<
            (
                ControlledReferenceEvent,
                Symbol,
                TimingCheckLimit,
                Option<(Symbol, Option<Notifier>)>,
            ),
        >,
        Symbol,
    ),
}

/// `width_timing_check ::= "$width" "(" width_timing_check_arguments ")" ";"`
#[derive(Debug)]
pub struct WidthTimingCheck {
    pub nodes: (
        Keyword,
        Paren<
            (
                ControlledReferenceEvent,
                Symbol,
                TimingCheckLimit,
                Symbol,
                Threshold,
                Option<(Symbol, Option<Notifier>)>,
            ),
        >,
        Symbol,
    ),
}

/// `nocharge_timing_check ::= "$nocharge" "(" nocharge_timing_check_arguments ")" ";"`
#[derive(Debug)]
pub struct NochargeTimingCheck {
    pub nodes: (
        Keyword,
        Paren<
            (
                ReferenceEvent,
                Symbol,
                DataEvent,
                Symbol,
                StartEdgeOffset,
                Symbol,
                EndEdgeOffset,
                Option<(Symbol, Option<Notifier>)>,
            ),
        >,
        Symbol,
    ),
}

/// One of the system timing checks.
#[derive(Debug)]
pub enum SystemTimingCheck {
    SetupTimingCheck(SetupTimingCheck),
    HoldTimingCheck(HoldTimingCheck),
    SetupholdTimingCheck(SetupholdTimingCheck),
    RecoveryTimingCheck(RecoveryTimingCheck),
    RemovalTimingCheck(RemovalTimingCheck),
    RecremTimingCheck(RecremTimingCheck),
    SkewTimingCheck(SkewTimingCheck),
    TimeskewTimingCheck(TimeskewTimingCheck),
    FullskewTimingCheck(FullskewTimingCheck),
    PeriodTimingCheck(PeriodTimingCheck),
    WidthTimingCheck(WidthTimingCheck),
    NochargeTimingCheck(NochargeTimingCheck),
}

/// What [`setup_timing_check_arguments`] returns.
pub type SetupTimingCheckArguments = (
    DataEvent,
    Symbol,
    ReferenceEvent,
    Symbol,
    TimingCheckLimit,
    Option<NotifierArgument>,
);

/// What [`setuphold_timing_check_arguments`] returns.
pub type SetupholdTimingCheckArguments = (
    ReferenceEvent,
    Symbol,
    DataEvent,
    Symbol,
    TimingCheckLimit,
    Symbol,
    TimingCheckLimit,
    Option<NotifierAndConditionsArgument>,
);

/// What [`timeskew_timing_check_arguments`] returns.
pub type TimeskewTimingCheckArguments = (
    ReferenceEvent,
    Symbol,
    DataEvent,
    Symbol,
    TimingCheckLimit,
    Option<NotifierAndFlagsArgument>,
);

/// What [`fullskew_timing_check_arguments`] returns.
pub type FullskewTimingCheckArguments = (
    ReferenceEvent,
    Symbol,
    DataEvent,
    Symbol,
    TimingCheckLimit,
    Symbol,
    TimingCheckLimit,
    Option<NotifierAndFlagsArgument>,
);

/// What [`period_timing_check_arguments`] returns.
pub type PeriodTimingCheckArguments = (
    ControlledReferenceEvent,
    Symbol,
    TimingCheckLimit,
    Option<NotifierArgument>,
);

/// What [`width_timing_check_arguments`] returns.
pub type WidthTimingCheckArguments = (
    ControlledReferenceEvent,
    Symbol,
    TimingCheckLimit,
    Symbol,
    Threshold,
    Option<NotifierArgument>,
);

/// What [`nocharge_timing_check_arguments`] returns.
pub type NochargeTimingCheckArguments = (
    ReferenceEvent,
    Symbol,
    DataEvent,
    Symbol,
    StartEdgeOffset,
    Symbol,
    EndEdgeOffset,
    Option<NotifierArgument>,
);

impl SetupTimingCheck {
    /// The tree of the node: the sequence of the trees of its parts.
    #[verifier::opaque]
    pub open spec fn tree(&self) -> Tree {
        Tree::Sequence(
            Seq::empty()
                .push(self.nodes.0.tree())
                .push(self.nodes.1.tree(setup_timing_check_arguments_tree(self.nodes.1.nodes.1)))
                .push(self.nodes.2.tree()),
        )
    }

    /// Appends the leaf spans of the node to `out`, in source order.
    pub fn leaf_spans(&self, out: &mut Vec<Span>)
        ensures
            final(out)@ == leaves_after(old(out)@, self.tree()),
    {
        proof {
            reveal(SetupTimingCheck::tree);
            reveal(notifier_argument_tree);
            reveal(setup_timing_check_arguments_tree);
        }
        self.nodes.0.leaf_spans(out);
        self.nodes.1.nodes.0.leaf_spans(out);
        self.nodes.1.nodes.1.0.leaf_spans(out);
        self.nodes.1.nodes.1.1.leaf_spans(out);
        self.nodes.1.nodes.1.2.leaf_spans(out);
        self.nodes.1.nodes.1.3.leaf_spans(out);
        self.nodes.1.nodes.1.4.leaf_spans(out);
        match &self.nodes.1.nodes.1.5 {
            Some(x) => {
                x.0.leaf_spans(out);
                match &x.1 {
                    Some(y) => {
                        y.leaf_spans(out);
                    },
                    None => {},
                }
            },
            None => {},
        }
        self.nodes.1.nodes.2.leaf_spans(out);
        self.nodes.2.leaf_spans(out);
    }
}

impl HoldTimingCheck {
    /// The tree of the node: the sequence of the trees of its parts.
    #[verifier::opaque]
    pub open spec fn tree(&self) -> Tree {
        Tree::Sequence(
            Seq::empty()
                .push(self.nodes.0.tree())
                .push(self.nodes.1.tree(setup_timing_check_arguments_tree(self.nodes.1.nodes.1)))
                .push(self.nodes.2.tree()),
        )
    }

    /// Appends the leaf spans of the node to `out`, in source order.
    pub fn leaf_spans(&self, out: &mut Vec<Span>)
        ensures
            final(out)@ == leaves_after(old(out)@, self.tree()),
    {
        proof {
            reveal(HoldTimingCheck::tree);
            reveal(notifier_argument_tree);
            reveal(setup_timing_check_arguments_tree);
        }
        self.nodes.0.leaf_spans(out);
        self.nodes.1.nodes.0.leaf_spans(out);
        self.nodes.1.nodes.1.0.leaf_spans(out);
        self.nodes.1.nodes.1.1.leaf_spans(out);
        self.nodes.1.nodes.1.2.leaf_spans(out);
        self.nodes.1.nodes.1.3.leaf_spans(out);
        self.nodes.1.nodes.1.4.leaf_spans(out);
        match &self.nodes.1.nodes.1.5 {
            Some(x) => {
                x.0.leaf_spans(out);
                match &x.1 {
                    Some(y) => {
                        y.leaf_spans(out);
                    },
                    None => {},
                }
            },
            None => {},
        }
        self.nodes.1.nodes.2.leaf_spans(out);
        self.nodes.2.leaf_spans(out);
    }
}

impl SetupholdTimingCheck {
    /// The tree of the node: the sequence of the trees of its parts.
    #[verifier::opaque]
    pub open spec fn tree(&self) -> Tree {
        Tree::Sequence(
            Seq::empty()
                .push(self.nodes.0.tree())
                .push(
                    self.nodes.1.tree(setuphold_timing_check_arguments_tree(self.nodes.1.nodes.1)),
                )
                .push(self.nodes.2.tree()),
        )
    }

    /// Appends the leaf spans of the node to `out`, in source order.
    pub fn leaf_spans(&self, out: &mut Vec<Span>)
        ensures
            final(out)@ == leaves_after(old(out)@, self.tree()),
    {
        proof {
            reveal(SetupholdTimingCheck::tree);
            reveal(delayed_data_argument_tree);
            reveal(delayed_reference_argument_tree);
            reveal(notifier_and_conditions_argument_tree);
            reveal(setuphold_timing_check_arguments_tree);
            reveal(timecheck_condition_argument_tree);
            reveal(timestamp_condition_argument_tree);
        }
        self.nodes.0.leaf_spans(out);
        self.nodes.1.nodes.0.leaf_spans(out);
        self.nodes.1.nodes.1.0.leaf_spans(out);
        self.nodes.1.nodes.1.1.leaf_spans(out);
        self.nodes.1.nodes.1.2.leaf_spans(out);
        self.nodes.1.nodes.1.3.leaf_spans(out);
        self.nodes.1.nodes.1.4.leaf_spans(out);
        self.nodes.1.nodes.1.5.leaf_spans(out);
        self.nodes.1.nodes.1.6.leaf_spans(out);
        match &self.nodes.1.nodes.1.7 {
            Some(x) => {
                x.0.leaf_spans(out);
                match &x.1 {
                    Some(y) => {
                        y.leaf_spans(out);
                    },
                    None => {},
                }
                match &x.2 {
                    Some(y) => {
                        y.0.leaf_spans(out);
                        match &y.1 {
                            Some(z) => {
                                z.leaf_spans(out);
                            },
                            None => {},
                        }
                        match &y.2 {
                            Some(z) => {
                                z.0.leaf_spans(out);
                                match &z.1 {
                                    Some(u) => {
                                        u.leaf_spans(out);
                                    },
                                    None => {},
                                }
                                match &z.2 {
                                    Some(u) => {
                                        u.0.leaf_spans(out);
                                        match &u.1 {
                                            Some(v) => {
                                                v.leaf_spans(out);
                                            },
                                            None => {},
                                        }
                                        match &u.2 {
                                            Some(v) => {
                                                v.0.leaf_spans(out);
                                                match &v.1 {
                                                    Some(w) => {
                                                        w.leaf_spans(out);
                                                    },
                                                    None => {},
                                                }
                                            },
                                            None => {},
                                        }
                                    },
                                    None => {},
                                }
                            },
                            None => {},
                        }
                    },
                    None => {},
                }
            },
            None => {},
        }
        self.nodes.1.nodes.2.leaf_spans(out);
        self.nodes.2.leaf_spans(out);
    }
}

impl RecoveryTimingCheck {
    /// The tree of the node: the sequence of the trees of its parts.
    #[verifier::opaque]
    pub open spec fn tree(&self) -> Tree {
        Tree::Sequence(
            Seq::empty()
                .push(self.nodes.0.tree())
                .push(self.nodes.1.tree(setup_timing_check_arguments_tree(self.nodes.1.nodes.1)))
                .push(self.nodes.2.tree()),
        )
    }

    /// Appends the leaf spans of the node to `out`, in source order.
    pub fn leaf_spans(&self, out: &mut Vec<Span>)
        ensures
            final(out)@ == leaves_after(old(out)@, self.tree()),
    {
        proof {
            reveal(RecoveryTimingCheck::tree);
            reveal(notifier_argument_tree);
            reveal(setup_timing_check_arguments_tree);
        }
        self.nodes.0.leaf_spans(out);
        self.nodes.1.nodes.0.leaf_spans(out);
        self.nodes.1.nodes.1.0.leaf_spans(out);
        self.nodes.1.nodes.1.1.leaf_spans(out);
        self.nodes.1.nodes.1.2.leaf_spans(out);
        self.nodes.1.nodes.1.3.leaf_spans(out);
        self.nodes.1.nodes.1.4.leaf_spans(out);
        match &self.nodes.1.nodes.1.5 {
            Some(x) => {
                x.0.leaf_spans(out);
                match &x.1 {
                    Some(y) => {
                        y.leaf_spans(out);
                    },
                    None => {},
                }
            },
            None => {},
        }
        self.nodes.1.nodes.2.leaf_spans(out);
        self.nodes.2.leaf_spans(out);
    }
}

impl RemovalTimingCheck {
    /// The tree of the node: the sequence of the trees of its parts.
    #[verifier::opaque]
    pub open spec fn tree(&self) -> Tree {
        Tree::Sequence(
            Seq::empty()
                .push(self.nodes.0.tree())
                .push(self.nodes.1.tree(setup_timing_check_arguments_tree(self.nodes.1.nodes.1)))
                .push(self.nodes.2.tree()),
        )
    }

    /// Appends the leaf spans of the node to `out`, in source order.
    pub fn leaf_spans(&self, out: &mut Vec<Span>)
        ensures
            final(out)@ == leaves_after(old(out)@, self.tree()),
    {
        proof {
            reveal(RemovalTimingCheck::tree);
            reveal(notifier_argument_tree);
            reveal(setup_timing_check_arguments_tree);
        }
        self.nodes.0.leaf_spans(out);
        self.nodes.1.nodes.0.leaf_spans(out);
        self.nodes.1.nodes.1.0.leaf_spans(out);
        self.nodes.1.nodes.1.1.leaf_spans(out);
        self.nodes.1.nodes.1.2.leaf_spans(out);
        self.nodes.1.nodes.1.3.leaf_spans(out);
        self.nodes.1.nodes.1.4.leaf_spans(out);
        match &self.nodes.1.nodes.1.5 {
            Some(x) => {
                x.0.leaf_spans(out);
                match &x.1 {
                    Some(y) => {
                        y.leaf_spans(out);
                    },
                    None => {},
                }
            },
            None => {},
        }
        self.nodes.1.nodes.2.leaf_spans(out);
        self.nodes.2.leaf_spans(out);
    }
}

impl RecremTimingCheck {
    /// The tree of the node: the sequence of the trees of its parts.
    #[verifier::opaque]
    pub open spec fn tree(&self) -> Tree {
        Tree::Sequence(
            Seq::empty()
                .push(self.nodes.0.tree())
                .push(
                    self.nodes.1.tree(setuphold_timing_check_arguments_tree(self.nodes.1.nodes.1)),
                )
                .push(self.nodes.2.tree()),
        )
    }

    /// Appends the leaf spans of the node to `out`, in source order.
    pub fn leaf_spans(&self, out: &mut Vec<Span>)
        ensures
            final(out)@ == leaves_after(old(out)@, self.tree()),
    {
        proof {
            reveal(RecremTimingCheck::tree);
            reveal(delayed_data_argument_tree);
            reveal(delayed_reference_argument_tree);
            reveal(notifier_and_conditions_argument_tree);
            reveal(setuphold_timing_check_arguments_tree);
            reveal(timecheck_condition_argument_tree);
            reveal(timestamp_condition_argument_tree);
        }
        self.nodes.0.leaf_spans(out);
        self.nodes.1.nodes.0.leaf_spans(out);
        self.nodes.1.nodes.1.0.leaf_spans(out);
        self.nodes.1.nodes.1.1.leaf_spans(out);
        self.nodes.1.nodes.1.2.leaf_spans(out);
        self.nodes.1.nodes.1.3.leaf_spans(out);
        self.nodes.1.nodes.1.4.leaf_spans(out);
        self.nodes.1.nodes.1.5.leaf_spans(out);
        self.nodes.1.nodes.1.6.leaf_spans(out);
        match &self.nodes.1.nodes.1.7 {
            Some(x) => {
                x.0.leaf_spans(out);
                match &x.1 {
                    Some(y) => {
                        y.leaf_spans(out);
                    },
                    None => {},
                }
                match &x.2 {
                    Some(y) => {
                        y.0.leaf_spans(out);
                        match &y.1 {
                            Some(z) => {
                                z.leaf_spans(out);
                            },
                            None => {},
                        }
                        match &y.2 {
                            Some(z) => {
                                z.0.leaf_spans(out);
                                match &z.1 {
                                    Some(u) => {
                                        u.leaf_spans(out);
                                    },
                                    None => {},
                                }
                                match &z.2 {
                                    Some(u) => {
                                        u.0.leaf_spans(out);
                                        match &u.1 {
                                            Some(v) => {
                                                v.leaf_spans(out);
                                            },
                                            None => {},
                                        }
                                        match &u.2 {
                                            Some(v) => {
                                                v.0.leaf_spans(out);
                                                match &v.1 {
                                                    Some(w) => {
                                                        w.leaf_spans(out);
                                                    },
                                                    None => {},
                                                }
                                            },
                                            None => {},
                                        }
                                    },
                                    None => {},
                                }
                            },
                            None => {},
                        }
                    },
                    None => {},
                }
            },
            None => {},
        }
        self.nodes.1.nodes.2.leaf_spans(out);
        self.nodes.2.leaf_spans(out);
    }
}

impl SkewTimingCheck {
    /// The tree of the node: the sequence of the trees of its parts.
    #[verifier::opaque]
    pub open spec fn tree(&self) -> Tree {
        Tree::Sequence(
            Seq::empty()
                .push(self.nodes.0.tree())
                .push(self.nodes.1.tree(setup_timing_check_arguments_tree(self.nodes.1.nodes.1)))
                .push(self.nodes.2.tree()),
        )
    }

    /// Appends the leaf spans of the node to `out`, in source order.
    pub fn leaf_spans(&self, out: &mut Vec<Span>)
        ensures
            final(out)@ == leaves_after(old(out)@, self.tree()),
    {
        proof {
            reveal(SkewTimingCheck::tree);
            reveal(notifier_argument_tree);
            reveal(setup_timing_check_arguments_tree);
        }
        self.nodes.0.leaf_spans(out);
        self.nodes.1.nodes.0.leaf_spans(out);
        self.nodes.1.nodes.1.0.leaf_spans(out);
        self.nodes.1.nodes.1.1.leaf_spans(out);
        self.nodes.1.nodes.1.2.leaf_spans(out);
        self.nodes.1.nodes.1.3.leaf_spans(out);
        self.nodes.1.nodes.1.4.leaf_spans(out);
        match &self.nodes.1.nodes.1.5 {
            Some(x) => {
                x.0.leaf_spans(out);
                match &x.1 {
                    Some(y) => {
                        y.leaf_spans(out);
                    },
                    None => {},
                }
            },
            None => {},
        }
        self.nodes.1.nodes.2.leaf_spans(out);
        self.nodes.2.leaf_spans(out);
    }
}

impl TimeskewTimingCheck {
    /// The tree of the node: the sequence of the trees of its parts.
    #[verifier::opaque]
    pub open spec fn tree(&self) -> Tree {
        Tree::Sequence(
            Seq::empty()
                .push(self.nodes.0.tree())
                .push(self.nodes.1.tree(timeskew_timing_check_arguments_tree(self.nodes.1.nodes.1)))
                .push(self.nodes.2.tree()),
        )
    }

    /// Appends the leaf spans of the node to `out`, in source order.
    pub fn leaf_spans(&self, out: &mut Vec<Span>)
        ensures
            final(out)@ == leaves_after(old(out)@, self.tree()),
    {
        proof {
            reveal(TimeskewTimingCheck::tree);
            reveal(event_based_flag_argument_tree);
            reveal(notifier_and_flags_argument_tree);
            reveal(remain_active_flag_argument_tree);
            reveal(timeskew_timing_check_arguments_tree);
        }
        self.nodes.0.leaf_spans(out);
        self.nodes.1.nodes.0.leaf_spans(out);
        self.nodes.1.nodes.1.0.leaf_spans(out);
        self.nodes.1.nodes.1.1.leaf_spans(out);
        self.nodes.1.nodes.1.2.leaf_spans(out);
        self.nodes.1.nodes.1.3.leaf_spans(out);
        self.nodes.1.nodes.1.4.leaf_spans(out);
        match &self.nodes.1.nodes.1.5 {
            Some(x) => {
                x.0.leaf_spans(out);
                match &x.1 {
                    Some(y) => {
                        y.leaf_spans(out);
                    },
                    None => {},
                }
                match &x.2 {
                    Some(y) => {
                        y.0.leaf_spans(out);
                        match &y.1 {
                            Some(z) => {
                                z.leaf_spans(out);
                            },
                            None => {},
                        }
                        match &y.2 {
                            Some(z) => {
                                z.0.leaf_spans(out);
                                match &z.1 {
                                    Some(u) => {
                                        u.leaf_spans(out);
                                    },
                                    None => {},
                                }
                            },
                            None => {},
                        }
                    },
                    None => {},
                }
            },
            None => {},
        }
        self.nodes.1.nodes.2.leaf_spans(out);
        self.nodes.2.leaf_spans(out);
    }
}

impl FullskewTimingCheck {
    /// The tree of the node: the sequence of the trees of its parts.
    #[verifier::opaque]
    pub open spec fn tree(&self) -> Tree {
        Tree::Sequence(
            Seq::empty()
                .push(self.nodes.0.tree())
                .push(self.nodes.1.tree(fullskew_timing_check_arguments_tree(self.nodes.1.nodes.1)))
                .push(self.nodes.2.tree()),
        )
    }

    /// Appends the leaf spans of the node to `out`, in source order.
    pub fn leaf_spans(&self, out: &mut Vec<Span>)
        ensures
            final(out)@ == leaves_after(old(out)@, self.tree()),
    {
        proof {
            reveal(FullskewTimingCheck::tree);
            reveal(event_based_flag_argument_tree);
            reveal(fullskew_timing_check_arguments_tree);
            reveal(notifier_and_flags_argument_tree);
            reveal(remain_active_flag_argument_tree);
        }
        self.nodes.0.leaf_spans(out);
        self.nodes.1.nodes.0.leaf_spans(out);
        self.nodes.1.nodes.1.0.leaf_spans(out);
        self.nodes.1.nodes.1.1.leaf_spans(out);
        self.nodes.1.nodes.1.2.leaf_spans(out);
        self.nodes.1.nodes.1.3.leaf_spans(out);
        self.nodes.1.nodes.1.4.leaf_spans(out);
        self.nodes.1.nodes.1.5.leaf_spans(out);
        self.nodes.1.nodes.1.6.leaf_spans(out);
        match &self.nodes.1.nodes.1.7 {
            Some(x) => {
                x.0.leaf_spans(out);
                match &x.1 {
                    Some(y) => {
                        y.leaf_spans(out);
                    },
                    None => {},
                }
                match &x.2 {
                    Some(y) => {
                        y.0.leaf_spans(out);
                        match &y.1 {
                            Some(z) => {
                                z.leaf_spans(out);
                            },
                            None => {},
                        }
                        match &y.2 {
                            Some(z) => {
                                z.0.leaf_spans(out);
                                match &z.1 {
                                    Some(u) => {
                                        u.leaf_spans(out);
                                    },
                                    None => {},
                                }
                            },
                            None => {},
                        }
                    },
                    None => {},
                }
            },
            None => {},
        }
        self.nodes.1.nodes.2.leaf_spans(out);
        self.nodes.2.leaf_spans(out);
    }
}

impl PeriodTimingCheck {
    /// The tree of the node: the sequence of the trees of its parts.
    #[verifier::opaque]
    pub open spec fn tree(&self) -> Tree {
        Tree::Sequence(
            Seq::empty()
                .push(self.nodes.0.tree())
                .push(self.nodes.1.tree(period_timing_check_arguments_tree(self.nodes.1.nodes.1)))
                .push(self.nodes.2.tree()),
        )
    }

    /// Appends the leaf spans of the node to `out`, in source order.
    pub fn leaf_spans(&self, out: &mut Vec<Span>)
        ensures
            final(out)@ == leaves_after(old(out)@, self.tree()),
    {
        proof {
            reveal(PeriodTimingCheck::tree);
            reveal(notifier_argument_tree);
            reveal(period_timing_check_arguments_tree);
        }
        self.nodes.0.leaf_spans(out);
        self.nodes.1.nodes.0.leaf_spans(out);
        self.nodes.1.nodes.1.0.leaf_spans(out);
        self.nodes.1.nodes.1.1.leaf_spans(out);
        self.nodes.1.nodes.1.2.leaf_spans(out);
        match &self.nodes.1.nodes.1.3 {
            Some(x) => {
                x.0.leaf_spans(out);
                match &x.1 {
                    Some(y) => {
                        y.leaf_spans(out);
                    },
                    None => {},
                }
            },
            None => {},
        }
        self.nodes.1.nodes.2.leaf_spans(out);
        self.nodes.2.leaf_spans(out);
    }
}

impl WidthTimingCheck {
    /// The tree of the node: the sequence of the trees of its parts.
    #[verifier::opaque]
    pub open spec fn tree(&self) -> Tree {
        Tree::Sequence(
            Seq::empty()
                .push(self.nodes.0.tree())
                .push(self.nodes.1.tree(width_timing_check_arguments_tree(self.nodes.1.nodes.1)))
                .push(self.nodes.2.tree()),
        )
    }

    /// Appends the leaf spans of the node to `out`, in source order.
    pub fn leaf_spans(&self, out: &mut Vec<Span>)
        ensures
            final(out)@ == leaves_after(old(out)@, self.tree()),
    {
        proof {
            reveal(WidthTimingCheck::tree);
            reveal(notifier_argument_tree);
            reveal(width_timing_check_arguments_tree);
        }
        self.nodes.0.leaf_spans(out);
        self.nodes.1.nodes.0.leaf_spans(out);
        self.nodes.1.nodes.1.0.leaf_spans(out);
        self.nodes.1.nodes.1.1.leaf_spans(out);
        self.nodes.1.nodes.1.2.leaf_spans(out);
        self.nodes.1.nodes.1.3.leaf_spans(out);
        self.nodes.1.nodes.1.4.leaf_spans(out);
        match &self.nodes.1.nodes.1.5 {
            Some(x) => {
                x.0.leaf_spans(out);
                match &x.1 {
                    Some(y) => {
                        y.leaf_spans(out);
                    },
                    None => {},
                }
            },
            None => {},
        }
        self.nodes.1.nodes.2.leaf_spans(out);
        self.nodes.2.leaf_spans(out);
    }
}

impl NochargeTimingCheck {
    /// The tree of the node: the sequence of the trees of its parts.
    #[verifier::opaque]
    pub open spec fn tree(&self) -> Tree {
        Tree::Sequence(
            Seq::empty()
                .push(self.nodes.0.tree())
                .push(self.nodes.1.tree(nocharge_timing_check_arguments_tree(self.nodes.1.nodes.1)))
                .push(self.nodes.2.tree()),
        )
    }

    /// Appends the leaf spans of the node to `out`, in source order.
    pub fn leaf_spans(&self, out: &mut Vec<Span>)
        ensures
            final(out)@ == leaves_after(old(out)@, self.tree()),
    {
        proof {
            reveal(NochargeTimingCheck::tree);
            reveal(nocharge_timing_check_arguments_tree);
            reveal(notifier_argument_tree);
        }
        self.nodes.0.leaf_spans(out);
        self.nodes.1.nodes.0.leaf_spans(out);
        self.nodes.1.nodes.1.0.leaf_spans(out);
        self.nodes.1.nodes.1.1.leaf_spans(out);
        self.nodes.1.nodes.1.2.leaf_spans(out);
        self.nodes.1.nodes.1.3.leaf_spans(out);
        self.nodes.1.nodes.1.4.leaf_spans(out);
        self.nodes.1.nodes.1.5.leaf_spans(out);
        self.nodes.1.nodes.1.6.leaf_spans(out);
        match &self.nodes.1.nodes.1.7 {
            Some(x) => {
                x.0.leaf_spans(out);
                match &x.1 {
                    Some(y) => {
                        y.leaf_spans(out);
                    },
                    None => {},
                }
            },
            None => {},
        }
        self.nodes.1.nodes.2.leaf_spans(out);
        self.nodes.2.leaf_spans(out);
    }
}

impl SystemTimingCheck {
    /// The tree of the node: the variant, by its index, and the tree of its payload.
    #[verifier::opaque]
    pub open spec fn tree(&self) -> Tree {
        match self {
            SystemTimingCheck::SetupTimingCheck(x) => Tree::Variant(0, Box::new(x.tree())),
            SystemTimingCheck::HoldTimingCheck(x) => Tree::Variant(1, Box::new(x.tree())),
            SystemTimingCheck::SetupholdTimingCheck(x) => Tree::Variant(2, Box::new(x.tree())),
            SystemTimingCheck::RecoveryTimingCheck(x) => Tree::Variant(3, Box::new(x.tree())),
            SystemTimingCheck::RemovalTimingCheck(x) => Tree::Variant(4, Box::new(x.tree())),
            SystemTimingCheck::RecremTimingCheck(x) => Tree::Variant(5, Box::new(x.tree())),
            SystemTimingCheck::SkewTimingCheck(x) => Tree::Variant(6, Box::new(x.tree())),
            SystemTimingCheck::TimeskewTimingCheck(x) => Tree::Variant(7, Box::new(x.tree())),
            SystemTimingCheck::FullskewTimingCheck(x) => Tree::Variant(8, Box::new(x.tree())),
            SystemTimingCheck::PeriodTimingCheck(x) => Tree::Variant(9, Box::new(x.tree())),
            SystemTimingCheck::WidthTimingCheck(x) => Tree::Variant(10, Box::new(x.tree())),
            SystemTimingCheck::NochargeTimingCheck(x) => Tree::Variant(11, Box::new(x.tree())),
        }
    }

    /// Appends the leaf spans of the node to `out`, in source order.
    pub fn leaf_spans(&self, out: &mut Vec<Span>)
        ensures
            final(out)@ == leaves_after(old(out)@, self.tree()),
    {
        proof {
            reveal(SystemTimingCheck::tree);
        }
        match self {
            SystemTimingCheck::SetupTimingCheck(x) => {
                x.leaf_spans(out);
            },
            SystemTimingCheck::HoldTimingCheck(x) => {
                x.leaf_spans(out);
            },
            SystemTimingCheck::SetupholdTimingCheck(x) => {
                x.leaf_spans(out);
            },
            SystemTimingCheck::RecoveryTimingCheck(x) => {
                x.leaf_spans(out);
            },
            SystemTimingCheck::RemovalTimingCheck(x) => {
                x.leaf_spans(out);
            },
            SystemTimingCheck::RecremTimingCheck(x) => {
                x.leaf_spans(out);
            },
            SystemTimingCheck::SkewTimingCheck(x) => {
                x.leaf_spans(out);
            },
            SystemTimingCheck::TimeskewTimingCheck(x) => {
                x.leaf_spans(out);
            },
            SystemTimingCheck::FullskewTimingCheck(x) => {
                x.leaf_spans(out);
            },
            SystemTimingCheck::PeriodTimingCheck(x) => {
                x.leaf_spans(out);
            },
            SystemTimingCheck::WidthTimingCheck(x) => {
                x.leaf_spans(out);
            },
            SystemTimingCheck::NochargeTimingCheck(x) => {
                x.leaf_spans(out);
            },
        }
    }
}

/// The tree of what [`setup_timing_check_arguments`] returns.
#[verifier::opaque]
pub open spec fn setup_timing_check_arguments_tree(n: SetupTimingCheckArguments) -> Tree {
    Tree::Sequence(
        Seq::empty()
            .push(n.0.tree())
            .push(n.1.tree())
            .push(n.2.tree())
            .push(n.3.tree())
            .push(n.4.tree())
            .push(
                match n.5 {
                    Some(x) => Tree::Optional(Some(Box::new(notifier_argument_tree(x)))),
                    None => Tree::Optional(None),
                },
            ),
    )
}

/// The tree of what [`setuphold_timing_check_arguments`] returns.
#[verifier::opaque]
pub open spec fn setuphold_timing_check_arguments_tree(n: SetupholdTimingCheckArguments) -> Tree {
    Tree::Sequence(
        Seq::empty()
            .push(n.0.tree())
            .push(n.1.tree())
            .push(n.2.tree())
            .push(n.3.tree())
            .push(n.4.tree())
            .push(n.5.tree())
            .push(n.6.tree())
            .push(
                match n.7 {
                    Some(x) => Tree::Optional(
                        Some(Box::new(notifier_and_conditions_argument_tree(x))),
                    ),
                    None => Tree::Optional(None),
                },
            ),
    )
}

/// The tree of what [`timeskew_timing_check_arguments`] returns.
#[verifier::opaque]
pub open spec fn timeskew_timing_check_arguments_tree(n: TimeskewTimingCheckArguments) -> Tree {
    Tree::Sequence(
        Seq::empty()
            .push(n.0.tree())
            .push(n.1.tree())
            .push(n.2.tree())
            .push(n.3.tree())
            .push(n.4.tree())
            .push(
                match n.5 {
                    Some(x) => Tree::Optional(Some(Box::new(notifier_and_flags_argument_tree(x)))),
                    None => Tree::Optional(None),
                },
            ),
    )
}

/// The tree of what [`fullskew_timing_check_arguments`] returns.
#[verifier::opaque]
pub open spec fn fullskew_timing_check_arguments_tree(n: FullskewTimingCheckArguments) -> Tree {
    Tree::Sequence(
        Seq::empty()
            .push(n.0.tree())
            .push(n.1.tree())
            .push(n.2.tree())
            .push(n.3.tree())
            .push(n.4.tree())
            .push(n.5.tree())
            .push(n.6.tree())
            .push(
                match n.7 {
                    Some(x) => Tree::Optional(Some(Box::new(notifier_and_flags_argument_tree(x)))),
                    None => Tree::Optional(None),
                },
            ),
    )
}

/// The tree of what [`period_timing_check_arguments`] returns.
#[verifier::opaque]
pub open spec fn period_timing_check_arguments_tree(n: PeriodTimingCheckArguments) -> Tree {
    Tree::Sequence(
        Seq::empty()
            .push(n.0.tree())
            .push(n.1.tree())
            .push(n.2.tree())
            .push(
                match n.3 {
                    Some(x) => Tree::Optional(Some(Box::new(notifier_argument_tree(x)))),
                    None => Tree::Optional(None),
                },
            ),
    )
}

/// The tree of what [`width_timing_check_arguments`] returns.
#[verifier::opaque]
pub open spec fn width_timing_check_arguments_tree(n: WidthTimingCheckArguments) -> Tree {
    Tree::Sequence(
        Seq::empty()
            .push(n.0.tree())
            .push(n.1.tree())
            .push(n.2.tree())
            .push(n.3.tree())
            .push(n.4.tree())
            .push(
                match n.5 {
                    Some(x) => Tree::Optional(Some(Box::new(notifier_argument_tree(x)))),
                    None => Tree::Optional(None),
                },
            ),
    )
}

/// The tree of what [`nocharge_timing_check_arguments`] returns.
#[verifier::opaque]
pub open spec fn nocharge_timing_check_arguments_tree(n: NochargeTimingCheckArguments) -> Tree {
    Tree::Sequence(
        Seq::empty()
            .push(n.0.tree())
            .push(n.1.tree())
            .push(n.2.tree())
            .push(n.3.tree())
            .push(n.4.tree())
            .push(n.5.tree())
            .push(n.6.tree())
            .push(
                match n.7 {
                    Some(x) => Tree::Optional(Some(Box::new(notifier_argument_tree(x)))),
                    None => Tree::Optional(None),
                },
            ),
    )
}

/// `setup_timing_check_arguments ::= data_event "," reference_event ","
/// timing_check_limit [ notifier_argument ]`
#[verifier::opaque]
pub open spec fn spec_setup_timing_check_arguments(inp: Input, pos: int, nest: Nesting) -> Parsed {
    let a = spec_timing_check_event(inp, pos, nest);
    let b = spec_symbol(inp, rest(a), ",");
    let c = spec_timing_check_event(inp, rest(b), nest);
    let d = spec_symbol(inp, rest(c), ",");
    let e = (nest.expression)(rest(d));
    let f = optional(spec_notifier_argument(inp, rest(e)), rest(e));
    seq6(a, b, c, d, e, f)
}

/// Parses a `setup_timing_check_arguments` at `pos`.
pub fn setup_timing_check_arguments(ctx: &mut Parser, pos: usize, depth: usize) -> (r: Result<
    (usize, SetupTimingCheckArguments),
    Failure,
>)
    requires
        old(ctx).wf(),
        pos <= old(ctx).input().src.len(),
    ensures
        final(ctx).wf(),
        final(ctx).input() == old(ctx).input(),
        lift(r, |n: SetupTimingCheckArguments| setup_timing_check_arguments_tree(n))
            == spec_setup_timing_check_arguments(
                old(ctx).input(),
                pos as int,
                nesting(old(ctx).input(), depth as nat),
            ),
        well_spanned(
            spec_setup_timing_check_arguments(
                old(ctx).input(),
                pos as int,
                nesting(old(ctx).input(), depth as nat),
            ),
            pos as int,
            old(ctx).input().src.len() as int,
        ),
{
    proof {
        reveal(spec_setup_timing_check_arguments);
        reveal(setup_timing_check_arguments_tree);
    }
    let p = pos;
    let (p, a) = timing_check_event(ctx, p, depth)?;
    let (p, b) = symbol(ctx, p, ",")?;
    let (p, c) = timing_check_event(ctx, p, depth)?;
    let (p, d) = symbol(ctx, p, ",")?;
    let (p, e) = expression(ctx, p, depth)?;
    let (p, f) = opt(notifier_argument(ctx, p), p)?;
    Ok((p, (a, b, c, d, e, f)))
}

/// `setup_timing_check ::= "$setup" "(" setup_timing_check_arguments ")" ";"` Once
/// `$setup` has matched, a failure is committed.
#[verifier::opaque]
pub open spec fn spec_setup_timing_check(inp: Input, pos: int, nest: Nesting) -> Parsed {
    let a = spec_keyword(inp, pos, "$setup");
    let b0 = cut(spec_symbol(inp, rest(a), "("));
    let b1 = cut(spec_setup_timing_check_arguments(inp, rest(b0), nest));
    let b2 = cut(spec_symbol(inp, rest(b1), ")"));
    let b = delimited(b0, b1, b2);
    let c = cut(spec_symbol(inp, rest(b), ";"));
    seq3(a, b, c)
}

/// Parses a `setup_timing_check` at `pos`.
pub fn setup_timing_check(ctx: &mut Parser, pos: usize, depth: usize) -> (r: Result<
    (usize, SetupTimingCheck),
    Failure,
>)
    requires
        old(ctx).wf(),
        pos <= old(ctx).input().src.len(),
    ensures
        final(ctx).wf(),
        final(ctx).input() == old(ctx).input(),
        lift(r, |n: SetupTimingCheck| n.tree()) == spec_setup_timing_check(
            old(ctx).input(),
            pos as int,
            nesting(old(ctx).input(), depth as nat),
        ),
        well_spanned(
            spec_setup_timing_check(
                old(ctx).input(),
                pos as int,
                nesting(old(ctx).input(), depth as nat),
            ),
            pos as int,
            old(ctx).input().src.len() as int,
        ),
{
    proof {
        reveal(spec_setup_timing_check);
        reveal(SetupTimingCheck::tree);
    }
    let p = pos;
    let (p, a) = keyword(ctx, p, "$setup")?;
    let (p, b0) = commit(symbol(ctx, p, "("))?;
    let (p, b1) = commit(setup_timing_check_arguments(ctx, p, depth))?;
    let (p, b2) = commit(symbol(ctx, p, ")"))?;
    let b = Paren { nodes: (b0, b1, b2) };
    let (p, c) = commit(symbol(ctx, p, ";"))?;
    Ok((p, SetupTimingCheck { nodes: (a, b, c) }))
}

/// `hold_timing_check_arguments ::= reference_event "," data_event ","
/// timing_check_limit [ notifier_argument ]`
#[verifier::opaque]
pub open spec fn spec_hold_timing_check_arguments(inp: Input, pos: int, nest: Nesting) -> Parsed {
    let a = spec_timing_check_event(inp, pos, nest);
    let b = spec_symbol(inp, rest(a), ",");
    let c = spec_timing_check_event(inp, rest(b), nest);
    let d = spec_symbol(inp, rest(c), ",");
    let e = (nest.expression)(rest(d));
    let f = optional(spec_notifier_argument(inp, rest(e)), rest(e));
    seq6(a, b, c, d, e, f)
}

/// Parses a `hold_timing_check_arguments` at `pos`.
pub fn hold_timing_check_arguments(ctx: &mut Parser, pos: usize, depth: usize) -> (r: Result<
    (usize, SetupTimingCheckArguments),
    Failure,
>)
    requires
        old(ctx).wf(),
        pos <= old(ctx).input().src.len(),
    ensures
        final(ctx).wf(),
        final(ctx).input() == old(ctx).input(),
        lift(r, |n: SetupTimingCheckArguments| setup_timing_check_arguments_tree(n))
            == spec_hold_timing_check_arguments(
                old(ctx).input(),
                pos as int,
                nesting(old(ctx).input(), depth as nat),
            ),
        well_spanned(
            spec_hold_timing_check_arguments(
                old(ctx).input(),
                pos as int,
                nesting(old(ctx).input(), depth as nat),
            ),
            pos as int,
            old(ctx).input().src.len() as int,
        ),
{
    proof {
        reveal(spec_hold_timing_check_arguments);
        reveal(setup_timing_check_arguments_tree);
    }
    let p = pos;
    let (p, a) = timing_check_event(ctx, p, depth)?;
    let (p, b) = symbol(ctx, p, ",")?;
    let (p, c) = timing_check_event(ctx, p, depth)?;
    let (p, d) = symbol(ctx, p, ",")?;
    let (p, e) = expression(ctx, p, depth)?;
    let (p, f) = opt(notifier_argument(ctx, p), p)?;
    Ok((p, (a, b, c, d, e, f)))
}

/// `hold_timing_check ::= "$hold" "(" hold_timing_check_arguments ")" ";"` Once `$hold`
/// has matched, a failure is committed.
#[verifier::opaque]
pub open spec fn spec_hold_timing_check(inp: Input, pos: int, nest: Nesting) -> Parsed {
    let a = spec_keyword(inp, pos, "$hold");
    let b0 = cut(spec_symbol(inp, rest(a), "("));
    let b1 = cut(spec_hold_timing_check_arguments(inp, rest(b0), nest));
    let b2 = cut(spec_symbol(inp, rest(b1), ")"));
    let b = delimited(b0, b1, b2);
    let c = cut(spec_symbol(inp, rest(b), ";"));
    seq3(a, b, c)
}

/// Parses a `hold_timing_check` at `pos`.
pub fn hold_timing_check(ctx: &mut Parser, pos: usize, depth: usize) -> (r: Result<
    (usize, HoldTimingCheck),
    Failure,
>)
    requires
        old(ctx).wf(),
        pos <= old(ctx).input().src.len(),
    ensures
        final(ctx).wf(),
        final(ctx).input() == old(ctx).input(),
        lift(r, |n: HoldTimingCheck| n.tree()) == spec_hold_timing_check(
            old(ctx).input(),
            pos as int,
            nesting(old(ctx).input(), depth as nat),
        ),
        well_spanned(
            spec_hold_timing_check(
                old(ctx).input(),
                pos as int,
                nesting(old(ctx).input(), depth as nat),
            ),
            pos as int,
            old(ctx).input().src.len() as int,
        ),
{
    proof {
        reveal(spec_hold_timing_check);
        reveal(HoldTimingCheck::tree);
    }
    let p = pos;
    let (p, a) = keyword(ctx, p, "$hold")?;
    let (p, b0) = commit(symbol(ctx, p, "("))?;
    let (p, b1) = commit(hold_timing_check_arguments(ctx, p, depth))?;
    let (p, b2) = commit(symbol(ctx, p, ")"))?;
    let b = Paren { nodes: (b0, b1, b2) };
    let (p, c) = commit(symbol(ctx, p, ";"))?;
    Ok((p, HoldTimingCheck { nodes: (a, b, c) }))
}

/// `setuphold_timing_check_arguments ::= reference_event "," data_event ","
/// timing_check_limit "," timing_check_limit [ notifier_and_conditions_argument ]`
#[verifier::opaque]
pub open spec fn spec_setuphold_timing_check_arguments(
    inp: Input,
    pos: int,
    nest: Nesting,
) -> Parsed {
    let a = spec_timing_check_event(inp, pos, nest);
    let b = spec_symbol(inp, rest(a), ",");
    let c = spec_timing_check_event(inp, rest(b), nest);
    let d = spec_symbol(inp, rest(c), ",");
    let e = (nest.expression)(rest(d));
    let f = spec_symbol(inp, rest(e), ",");
    let g = (nest.expression)(rest(f));
    let h = optional(spec_notifier_and_conditions_argument(inp, rest(g), nest), rest(g));
    seq8(a, b, c, d, e, f, g, h)
}

/// Parses a `setuphold_timing_check_arguments` at `pos`.
pub fn setuphold_timing_check_arguments(ctx: &mut Parser, pos: usize, depth: usize) -> (r: Result<
    (usize, SetupholdTimingCheckArguments),
    Failure,
>)
    requires
        old(ctx).wf(),
        pos <= old(ctx).input().src.len(),
    ensures
        final(ctx).wf(),
        final(ctx).input() == old(ctx).input(),
        lift(r, |n: SetupholdTimingCheckArguments| setuphold_timing_check_arguments_tree(n))
            == spec_setuphold_timing_check_arguments(
                old(ctx).input(),
                pos as int,
                nesting(old(ctx).input(), depth as nat),
            ),
        well_spanned(
            spec_setuphold_timing_check_arguments(
                old(ctx).input(),
                pos as int,
                nesting(old(ctx).input(), depth as nat),
            ),
            pos as int,
            old(ctx).input().src.len() as int,
        ),
{
    proof {
        reveal(spec_setuphold_timing_check_arguments);
        reveal(setuphold_timing_check_arguments_tree);
    }
    let p = pos;
    let (p, a) = timing_check_event(ctx, p, depth)?;
    let (p, b) = symbol(ctx, p, ",")?;
    let (p, c) = timing_check_event(ctx, p, depth)?;
    let (p, d) = symbol(ctx, p, ",")?;
    let (p, e) = expression(ctx, p, depth)?;
    let (p, f) = symbol(ctx, p, ",")?;
    let (p, g) = expression(ctx, p, depth)?;
    let (p, h) = opt(notifier_and_conditions_argument(ctx, p, depth), p)?;
    Ok((p, (a, b, c, d, e, f, g, h)))
}

/// `setuphold_timing_check ::= "$setuphold" "(" setuphold_timing_check_arguments ")"
/// ";"` Once `$setuphold` has matched, a failure is committed.
#[verifier::opaque]
pub open spec fn spec_setuphold_timing_check(inp: Input, pos: int, nest: Nesting) -> Parsed {
    let a = spec_keyword(inp, pos, "$setuphold");
    let b0 = cut(spec_symbol(inp, rest(a), "("));
    let b1 = cut(spec_setuphold_timing_check_arguments(inp, rest(b0), nest));
    let b2 = cut(spec_symbol(inp, rest(b1), ")"));
    let b = delimited(b0, b1, b2);
    let c = cut(spec_symbol(inp, rest(b), ";"));
    seq3(a, b, c)
}

/// Parses a `setuphold_timing_check` at `pos`.
pub fn setuphold_timing_check(ctx: &mut Parser, pos: usize, depth: usize) -> (r: Result<
    (usize, SetupholdTimingCheck),
    Failure,
>)
    requires
        old(ctx).wf(),
        pos <= old(ctx).input().src.len(),
    ensures
        final(ctx).wf(),
        final(ctx).input() == old(ctx).input(),
        lift(r, |n: SetupholdTimingCheck| n.tree()) == spec_setuphold_timing_check(
            old(ctx).input(),
            pos as int,
            nesting(old(ctx).input(), depth as nat),
        ),
        well_spanned(
            spec_setuphold_timing_check(
                old(ctx).input(),
                pos as int,
                nesting(old(ctx).input(), depth as nat),
            ),
            pos as int,
            old(ctx).input().src.len() as int,
        ),
{
    proof {
        reveal(spec_setuphold_timing_check);
        reveal(SetupholdTimingCheck::tree);
    }
    let p = pos;
    let (p, a) = keyword(ctx, p, "$setuphold")?;
    let (p, b0) = commit(symbol(ctx, p, "("))?;
    let (p, b1) = commit(setuphold_timing_check_arguments(ctx, p, depth))?;
    let (p, b2) = commit(symbol(ctx, p, ")"))?;
    let b = Paren { nodes: (b0, b1, b2) };
    let (p, c) = commit(symbol(ctx, p, ";"))?;
    Ok((p, SetupholdTimingCheck { nodes: (a, b, c) }))
}

/// `recovery_timing_check_arguments ::= reference_event "," data_event ","
/// timing_check_limit [ notifier_argument ]`
#[verifier::opaque]
pub open spec fn spec_recovery_timing_check_arguments(
    inp: Input,
    pos: int,
    nest: Nesting,
) -> Parsed {
    let a = spec_timing_check_event(inp, pos, nest);
    let b = spec_symbol(inp, rest(a), ",");
    let c = spec_timing_check_event(inp, rest(b), nest);
    let d = spec_symbol(inp, rest(c), ",");
    let e = (nest.expression)(rest(d));
    let f = optional(spec_notifier_argument(inp, rest(e)), rest(e));
    seq6(a, b, c, d, e, f)
}

/// Parses a `recovery_timing_check_arguments` at `pos`.
pub fn recovery_timing_check_arguments(ctx: &mut Parser, pos: usize, depth: usize) -> (r: Result<
    (usize, SetupTimingCheckArguments),
    Failure,
>)
    requires
        old(ctx).wf(),
        pos <= old(ctx).input().src.len(),
    ensures
        final(ctx).wf(),
        final(ctx).input() == old(ctx).input(),
        lift(r, |n: SetupTimingCheckArguments| setup_timing_check_arguments_tree(n))
            == spec_recovery_timing_check_arguments(
                old(ctx).input(),
                pos as int,
                nesting(old(ctx).input(), depth as nat),
            ),
        well_spanned(
            spec_recovery_timing_check_arguments(
                old(ctx).input(),
                pos as int,
                nesting(old(ctx).input(), depth as nat),
            ),
            pos as int,
            old(ctx).input().src.len() as int,
        ),
{
    proof {
        reveal(spec_recovery_timing_check_arguments);
        reveal(setup_timing_check_arguments_tree);
    }
    let p = pos;
    let (p, a) = timing_check_event(ctx, p, depth)?;
    let (p, b) = symbol(ctx, p, ",")?;
    let (p, c) = timing_check_event(ctx, p, depth)?;
    let (p, d) = symbol(ctx, p, ",")?;
    let (p, e) = expression(ctx, p, depth)?;
    let (p, f) = opt(notifier_argument(ctx, p), p)?;
    Ok((p, (a, b, c, d, e, f)))
}

/// `recovery_timing_check ::= "$recovery" "(" recovery_timing_check_arguments ")" ";"`
/// Once `$recovery` has matched, a failure is committed.
#[verifier::opaque]
pub open spec fn spec_recovery_timing_check(inp: Input, pos: int, nest: Nesting) -> Parsed {
    let a = spec_keyword(inp, pos, "$recovery");
    let b0 = cut(spec_symbol(inp, rest(a), "("));
    let b1 = cut(spec_recovery_timing_check_arguments(inp, rest(b0), nest));
    let b2 = cut(spec_symbol(inp, rest(b1), ")"));
    let b = delimited(b0, b1, b2);
    let c = cut(spec_symbol(inp, rest(b), ";"));
    seq3(a, b, c)
}

/// Parses a `recovery_timing_check` at `pos`.
pub fn recovery_timing_check(ctx: &mut Parser, pos: usize, depth: usize) -> (r: Result<
    (usize, RecoveryTimingCheck),
    Failure,
>)
    requires
        old(ctx).wf(),
        pos <= old(ctx).input().src.len(),
    ensures
        final(ctx).wf(),
        final(ctx).input() == old(ctx).input(),
        lift(r, |n: RecoveryTimingCheck| n.tree()) == spec_recovery_timing_check(
            old(ctx).input(),
            pos as int,
            nesting(old(ctx).input(), depth as nat),
        ),
        well_spanned(
            spec_recovery_timing_check(
                old(ctx).input(),
                pos as int,
                nesting(old(ctx).input(), depth as nat),
            ),
            pos as int,
            old(ctx).input().src.len() as int,
        ),
{
    proof {
        reveal(spec_recovery_timing_check);
        reveal(RecoveryTimingCheck::tree);
    }
    let p = pos;
    let (p, a) = keyword(ctx, p, "$recovery")?;
    let (p, b0) = commit(symbol(ctx, p, "("))?;
    let (p, b1) = commit(recovery_timing_check_arguments(ctx, p, depth))?;
    let (p, b2) = commit(symbol(ctx, p, ")"))?;
    let b = Paren { nodes: (b0, b1, b2) };
    let (p, c) = commit(symbol(ctx, p, ";"))?;
    Ok((p, RecoveryTimingCheck { nodes: (a, b, c) }))
}

/// `removal_timing_check_arguments ::= reference_event "," data_event ","
/// timing_check_limit [ notifier_argument ]`
#[verifier::opaque]
pub open spec fn spec_removal_timing_check_arguments(
    inp: Input,
    pos: int,
    nest: Nesting,
) -> Parsed {
    let a = spec_timing_check_event(inp, pos, nest);
    let b = spec_symbol(inp, rest(a), ",");
    let c = spec_timing_check_event(inp, rest(b), nest);
    let d = spec_symbol(inp, rest(c), ",");
    let e = (nest.expression)(rest(d));
    let f = optional(spec_notifier_argument(inp, rest(e)), rest(e));
    seq6(a, b, c, d, e, f)
}

/// Parses a `removal_timing_check_arguments` at `pos`.
pub fn removal_timing_check_arguments(ctx: &mut Parser, pos: usize, depth: usize) -> (r: Result<
    (usize, SetupTimingCheckArguments),
    Failure,
>)
    requires
        old(ctx).wf(),
        pos <= old(ctx).input().src.len(),
    ensures
        final(ctx).wf(),
        final(ctx).input() == old(ctx).input(),
        lift(r, |n: SetupTimingCheckArguments| setup_timing_check_arguments_tree(n))
            == spec_removal_timing_check_arguments(
                old(ctx).input(),
                pos as int,
                nesting(old(ctx).input(), depth as nat),
            ),
        well_spanned(
            spec_removal_timing_check_arguments(
                old(ctx).input(),
                pos as int,
                nesting(old(ctx).input(), depth as nat),
            ),
            pos as int,
            old(ctx).input().src.len() as int,
        ),
{
    proof {
        reveal(spec_removal_timing_check_arguments);
        reveal(setup_timing_check_arguments_tree);
    }
    let p = pos;
    let (p, a) = timing_check_event(ctx, p, depth)?;
    let (p, b) = symbol(ctx, p, ",")?;
    let (p, c) = timing_check_event(ctx, p, depth)?;
    let (p, d) = symbol(ctx, p, ",")?;
    let (p, e) = expression(ctx, p, depth)?;
    let (p, f) = opt(notifier_argument(ctx, p), p)?;
    Ok((p, (a, b, c, d, e, f)))
}

/// `removal_timing_check ::= "$removal" "(" removal_timing_check_arguments ")" ";"`
/// Once `$removal` has matched, a failure is committed.
#[verifier::opaque]
pub open spec fn spec_removal_timing_check(inp: Input, pos: int, nest: Nesting) -> Parsed {
    let a = spec_keyword(inp, pos, "$removal");
    let b0 = cut(spec_symbol(inp, rest(a), "("));
    let b1 = cut(spec_removal_timing_check_arguments(inp, rest(b0), nest));
    let b2 = cut(spec_symbol(inp, rest(b1), ")"));
    let b = delimited(b0, b1, b2);
    let c = cut(spec_symbol(inp, rest(b), ";"));
    seq3(a, b, c)
}

/// Parses a `removal_timing_check` at `pos`.
pub fn removal_timing_check(ctx: &mut Parser, pos: usize, depth: usize) -> (r: Result<
    (usize, RemovalTimingCheck),
    Failure,
>)
    requires
        old(ctx).wf(),
        pos <= old(ctx).input().src.len(),
    ensures
        final(ctx).wf(),
        final(ctx).input() == old(ctx).input(),
        lift(r, |n: RemovalTimingCheck| n.tree()) == spec_removal_timing_check(
            old(ctx).input(),
            pos as int,
            nesting(old(ctx).input(), depth as nat),
        ),
        well_spanned(
            spec_removal_timing_check(
                old(ctx).input(),
                pos as int,
                nesting(old(ctx).input(), depth as nat),
            ),
            pos as int,
            old(ctx).input().src.len() as int,
        ),
{
    proof {
        reveal(spec_removal_timing_check);
        reveal(RemovalTimingCheck::tree);
    }
    let p = pos;
    let (p, a) = keyword(ctx, p, "$removal")?;
    let (p, b0) = commit(symbol(ctx, p, "("))?;
    let (p, b1) = commit(removal_timing_check_arguments(ctx, p, depth))?;
    let (p, b2) = commit(symbol(ctx, p, ")"))?;
    let b = Paren { nodes: (b0, b1, b2) };
    let (p, c) = commit(symbol(ctx, p, ";"))?;
    Ok((p, RemovalTimingCheck { nodes: (a, b, c) }))
}

/// `recrem_timing_check_arguments ::= reference_event "," data_event ","
/// timing_check_limit "," timing_check_limit [ notifier_and_conditions_argument ]`
#[verifier::opaque]
pub open spec fn spec_recrem_timing_check_arguments(inp: Input, pos: int, nest: Nesting) -> Parsed {
    let a = spec_timing_check_event(inp, pos, nest);
    let b = spec_symbol(inp, rest(a), ",");
    let c = spec_timing_check_event(inp, rest(b), nest);
    let d = spec_symbol(inp, rest(c), ",");
    let e = (nest.expression)(rest(d));
    let f = spec_symbol(inp, rest(e), ",");
    let g = (nest.expression)(rest(f));
    let h = optional(spec_notifier_and_conditions_argument(inp, rest(g), nest), rest(g));
    seq8(a, b, c, d, e, f, g, h)
}

/// Parses a `recrem_timing_check_arguments` at `pos`.
pub fn recrem_timing_check_arguments(ctx: &mut Parser, pos: usize, depth: usize) -> (r: Result<
    (usize, SetupholdTimingCheckArguments),
    Failure,
>)
    requires
        old(ctx).wf(),
        pos <= old(ctx).input().src.len(),
    ensures
        final(ctx).wf(),
        final(ctx).input() == old(ctx).input(),
        lift(r, |n: SetupholdTimingCheckArguments| setuphold_timing_check_arguments_tree(n))
            == spec_recrem_timing_check_arguments(
                old(ctx).input(),
                pos as int,
                nesting(old(ctx).input(), depth as nat),
            ),
        well_spanned(
            spec_recrem_timing_check_arguments(
                old(ctx).input(),
                pos as int,
                nesting(old(ctx).input(), depth as nat),
            ),
            pos as int,
            old(ctx).input().src.len() as int,
        ),
{
    proof {
        reveal(spec_recrem_timing_check_arguments);
        reveal(setuphold_timing_check_arguments_tree);
    }
    let p = pos;
    let (p, a) = timing_check_event(ctx, p, depth)?;
    let (p, b) = symbol(ctx, p, ",")?;
    let (p, c) = timing_check_event(ctx, p, depth)?;
    let (p, d) = symbol(ctx, p, ",")?;
    let (p, e) = expression(ctx, p, depth)?;
    let (p, f) = symbol(ctx, p, ",")?;
    let (p, g) = expression(ctx, p, depth)?;
    let (p, h) = opt(notifier_and_conditions_argument(ctx, p, depth), p)?;
    Ok((p, (a, b, c, d, e, f, g, h)))
}

/// `recrem_timing_check ::= "$recrem" "(" recrem_timing_check_arguments ")" ";"` Once
/// `$recrem` has matched, a failure is committed.
#[verifier::opaque]
pub open spec fn spec_recrem_timing_check(inp: Input, pos: int, nest: Nesting) -> Parsed {
    let a = spec_keyword(inp, pos, "$recrem");
    let b0 = cut(spec_symbol(inp, rest(a), "("));
    let b1 = cut(spec_recrem_timing_check_arguments(inp, rest(b0), nest));
    let b2 = cut(spec_symbol(inp, rest(b1), ")"));
    let b = delimited(b0, b1, b2);
    let c = cut(spec_symbol(inp, rest(b), ";"));
    seq3(a, b, c)
}

/// Parses a `recrem_timing_check` at `pos`.
pub fn recrem_timing_check(ctx: &mut Parser, pos: usize, depth: usize) -> (r: Result<
    (usize, RecremTimingCheck),
    Failure,
>)
    requires
        old(ctx).wf(),
        pos <= old(ctx).input().src.len(),
    ensures
        final(ctx).wf(),
        final(ctx).input() == old(ctx).input(),
        lift(r, |n: RecremTimingCheck| n.tree()) == spec_recrem_timing_check(
            old(ctx).input(),
            pos as int,
            nesting(old(ctx).input(), depth as nat),
        ),
        well_spanned(
            spec_recrem_timing_check(
                old(ctx).input(),
                pos as int,
                nesting(old(ctx).input(), depth as nat),
            ),
            pos as int,
            old(ctx).input().src.len() as int,
        ),
{
    proof {
        reveal(spec_recrem_timing_check);
        reveal(RecremTimingCheck::tree);
    }
    let p = pos;
    let (p, a) = keyword(ctx, p, "$recrem")?;
    let (p, b0) = commit(symbol(ctx, p, "("))?;
    let (p, b1) = commit(recrem_timing_check_arguments(ctx, p, depth))?;
    let (p, b2) = commit(symbol(ctx, p, ")"))?;
    let b = Paren { nodes: (b0, b1, b2) };
    let (p, c) = commit(symbol(ctx, p, ";"))?;
    Ok((p, RecremTimingCheck { nodes: (a, b, c) }))
}

/// `skew_timing_check_arguments ::= reference_event "," data_event ","
/// timing_check_limit [ notifier_argument ]`
#[verifier::opaque]
pub open spec fn spec_skew_timing_check_arguments(inp: Input, pos: int, nest: Nesting) -> Parsed {
    let a = spec_timing_check_event(inp, pos, nest);
    let b = spec_symbol(inp, rest(a), ",");
    let c = spec_timing_check_event(inp, rest(b), nest);
    let d = spec_symbol(inp, rest(c), ",");
    let e = (nest.expression)(rest(d));
    let f = optional(spec_notifier_argument(inp, rest(e)), rest(e));
    seq6(a, b, c, d, e, f)
}

/// Parses a `skew_timing_check_arguments` at `pos`.
pub fn skew_timing_check_arguments(ctx: &mut Parser, pos: usize, depth: usize) -> (r: Result<
    (usize, SetupTimingCheckArguments),
    Failure,
>)
    requires
        old(ctx).wf(),
        pos <= old(ctx).input().src.len(),
    ensures
        final(ctx).wf(),
        final(ctx).input() == old(ctx).input(),
        lift(r, |n: SetupTimingCheckArguments| setup_timing_check_arguments_tree(n))
            == spec_skew_timing_check_arguments(
                old(ctx).input(),
                pos as int,
                nesting(old(ctx).input(), depth as nat),
            ),
        well_spanned(
            spec_skew_timing_check_arguments(
                old(ctx).input(),
                pos as int,
                nesting(old(ctx).input(), depth as nat),
            ),
            pos as int,
            old(ctx).input().src.len() as int,
        ),
{
    proof {
        reveal(spec_skew_timing_check_arguments);
        reveal(setup_timing_check_arguments_tree);
    }
    let p = pos;
    let (p, a) = timing_check_event(ctx, p, depth)?;
    let (p, b) = symbol(ctx, p, ",")?;
    let (p, c) = timing_check_event(ctx, p, depth)?;
    let (p, d) = symbol(ctx, p, ",")?;
    let (p, e) = expression(ctx, p, depth)?;
    let (p, f) = opt(notifier_argument(ctx, p), p)?;
    Ok((p, (a, b, c, d, e, f)))
}

/// `skew_timing_check ::= "$skew" "(" skew_timing_check_arguments ")" ";"` Once `$skew`
/// has matched, a failure is committed.
#[verifier::opaque]
pub open spec fn spec_skew_timing_check(inp: Input, pos: int, nest: Nesting) -> Parsed {
    let a = spec_keyword(inp, pos, "$skew");
    let b0 = cut(spec_symbol(inp, rest(a), "("));
    let b1 = cut(spec_skew_timing_check_arguments(inp, rest(b0), nest));
    let b2 = cut(spec_symbol(inp, rest(b1), ")"));
    let b = delimited(b0, b1, b2);
    let c = cut(spec_symbol(inp, rest(b), ";"));
    seq3(a, b, c)
}

/// Parses a `skew_timing_check` at `pos`.
pub fn skew_timing_check(ctx: &mut Parser, pos: usize, depth: usize) -> (r: Result<
    (usize, SkewTimingCheck),
    Failure,
>)
    requires
        old(ctx).wf(),
        pos <= old(ctx).input().src.len(),
    ensures
        final(ctx).wf(),
        final(ctx).input() == old(ctx).input(),
        lift(r, |n: SkewTimingCheck| n.tree()) == spec_skew_timing_check(
            old(ctx).input(),
            pos as int,
            nesting(old(ctx).input(), depth as nat),
        ),
        well_spanned(
            spec_skew_timing_check(
                old(ctx).input(),
                pos as int,
                nesting(old(ctx).input(), depth as nat),
            ),
            pos as int,
            old(ctx).input().src.len() as int,
        ),
{
    proof {
        reveal(spec_skew_timing_check);
        reveal(SkewTimingCheck::tree);
    }
    let p = pos;
    let (p, a) = keyword(ctx, p, "$skew")?;
    let (p, b0) = commit(symbol(ctx, p, "("))?;
    let (p, b1) = commit(skew_timing_check_arguments(ctx, p, depth))?;
    let (p, b2) = commit(symbol(ctx, p, ")"))?;
    let b = Paren { nodes: (b0, b1, b2) };
    let (p, c) = commit(symbol(ctx, p, ";"))?;
    Ok((p, SkewTimingCheck { nodes: (a, b, c) }))
}

/// `timeskew_timing_check_arguments ::= reference_event "," data_event ","
/// timing_check_limit [ notifier_and_flags_argument ]`
#[verifier::opaque]
pub open spec fn spec_timeskew_timing_check_arguments(
    inp: Input,
    pos: int,
    nest: Nesting,
) -> Parsed {
    let a = spec_timing_check_event(inp, pos, nest);
    let b = spec_symbol(inp, rest(a), ",");
    let c = spec_timing_check_event(inp, rest(b), nest);
    let d = spec_symbol(inp, rest(c), ",");
    let e = (nest.expression)(rest(d));
    let f = optional(spec_notifier_and_flags_argument(inp, rest(e), nest), rest(e));
    seq6(a, b, c, d, e, f)
}

/// Parses a `timeskew_timing_check_arguments` at `pos`.
pub fn timeskew_timing_check_arguments(ctx: &mut Parser, pos: usize, depth: usize) -> (r: Result<
    (usize, TimeskewTimingCheckArguments),
    Failure,
>)
    requires
        old(ctx).wf(),
        pos <= old(ctx).input().src.len(),
    ensures
        final(ctx).wf(),
        final(ctx).input() == old(ctx).input(),
        lift(r, |n: TimeskewTimingCheckArguments| timeskew_timing_check_arguments_tree(n))
            == spec_timeskew_timing_check_arguments(
                old(ctx).input(),
                pos as int,
                nesting(old(ctx).input(), depth as nat),
            ),
        well_spanned(
            spec_timeskew_timing_check_arguments(
                old(ctx).input(),
                pos as int,
                nesting(old(ctx).input(), depth as nat),
            ),
            pos as int,
            old(ctx).input().src.len() as int,
        ),
{
    proof {
        reveal(spec_timeskew_timing_check_arguments);
        reveal(timeskew_timing_check_arguments_tree);
    }
    let p = pos;
    let (p, a) = timing_check_event(ctx, p, depth)?;
    let (p, b) = symbol(ctx, p, ",")?;
    let (p, c) = timing_check_event(ctx, p, depth)?;
    let (p, d) = symbol(ctx, p, ",")?;
    let (p, e) = expression(ctx, p, depth)?;
    let (p, f) = opt(notifier_and_flags_argument(ctx, p, depth), p)?;
    Ok((p, (a, b, c, d, e, f)))
}

/// `timeskew_timing_check ::= "$timeskew" "(" timeskew_timing_check_arguments ")" ";"`
/// Once `$timeskew` has matched, a failure is committed.
#[verifier::opaque]
pub open spec fn spec_timeskew_timing_check(inp: Input, pos: int, nest: Nesting) -> Parsed {
    let a = spec_keyword(inp, pos, "$timeskew");
    let b0 = cut(spec_symbol(inp, rest(a), "("));
    let b1 = cut(spec_timeskew_timing_check_arguments(inp, rest(b0), nest));
    let b2 = cut(spec_symbol(inp, rest(b1), ")"));
    let b = delimited(b0, b1, b2);
    let c = cut(spec_symbol(inp, rest(b), ";"));
    seq3(a, b, c)
}

/// Parses a `timeskew_timing_check` at `pos`.
pub fn timeskew_timing_check(ctx: &mut Parser, pos: usize, depth: usize) -> (r: Result<
    (usize, TimeskewTimingCheck),
    Failure,
>)
    requires
        old(ctx).wf(),
        pos <= old(ctx).input().src.len(),
    ensures
        final(ctx).wf(),
        final(ctx).input() == old(ctx).input(),
        lift(r, |n: TimeskewTimingCheck| n.tree()) == spec_timeskew_timing_check(
            old(ctx).input(),
            pos as int,
            nesting(old(ctx).input(), depth as nat),
        ),
        well_spanned(
            spec_timeskew_timing_check(
                old(ctx).input(),
                pos as int,
                nesting(old(ctx).input(), depth as nat),
            ),
            pos as int,
            old(ctx).input().src.len() as int,
        ),
{
    proof {
        reveal(spec_timeskew_timing_check);
        reveal(TimeskewTimingCheck::tree);
    }
    let p = pos;
    let (p, a) = keyword(ctx, p, "$timeskew")?;
    let (p, b0) = commit(symbol(ctx, p, "("))?;
    let (p, b1) = commit(timeskew_timing_check_arguments(ctx, p, depth))?;
    let (p, b2) = commit(symbol(ctx, p, ")"))?;
    let b = Paren { nodes: (b0, b1, b2) };
    let (p, c) = commit(symbol(ctx, p, ";"))?;
    Ok((p, TimeskewTimingCheck { nodes: (a, b, c) }))
}

/// `fullskew_timing_check_arguments ::= reference_event "," data_event ","
/// timing_check_limit "," timing_check_limit [ notifier_and_flags_argument ]`
#[verifier::opaque]
pub open spec fn spec_fullskew_timing_check_arguments(
    inp: Input,
    pos: int,
    nest: Nesting,
) -> Parsed {
    let a = spec_timing_check_event(inp, pos, nest);
    let b = spec_symbol(inp, rest(a), ",");
    let c = spec_timing_check_event(inp, rest(b), nest);
    let d = spec_symbol(inp, rest(c), ",");
    let e = (nest.expression)(rest(d));
    let f = spec_symbol(inp, rest(e), ",");
    let g = (nest.expression)(rest(f));
    let h = optional(spec_notifier_and_flags_argument(inp, rest(g), nest), rest(g));
    seq8(a, b, c, d, e, f, g, h)
}

/// Parses a `fullskew_timing_check_arguments` at `pos`.
pub fn fullskew_timing_check_arguments(ctx: &mut Parser, pos: usize, depth: usize) -> (r: Result<
    (usize, FullskewTimingCheckArguments),
    Failure,
>)
    requires
        old(ctx).wf(),
        pos <= old(ctx).input().src.len(),
    ensures
        final(ctx).wf(),
        final(ctx).input() == old(ctx).input(),
        lift(r, |n: FullskewTimingCheckArguments| fullskew_timing_check_arguments_tree(n))
            == spec_fullskew_timing_check_arguments(
                old(ctx).input(),
                pos as int,
                nesting(old(ctx).input(), depth as nat),
            ),
        well_spanned(
            spec_fullskew_timing_check_arguments(
                old(ctx).input(),
                pos as int,
                nesting(old(ctx).input(), depth as nat),
            ),
            pos as int,
            old(ctx).input().src.len() as int,
        ),
{
    proof {
        reveal(spec_fullskew_timing_check_arguments);
        reveal(fullskew_timing_check_arguments_tree);
    }
    let p = pos;
    let (p, a) = timing_check_event(ctx, p, depth)?;
    let (p, b) = symbol(ctx, p, ",")?;
    let (p, c) = timing_check_event(ctx, p, depth)?;
    let (p, d) = symbol(ctx, p, ",")?;
    let (p, e) = expression(ctx, p, depth)?;
    let (p, f) = symbol(ctx, p, ",")?;
    let (p, g) = expression(ctx, p, depth)?;
    let (p, h) = opt(notifier_and_flags_argument(ctx, p, depth), p)?;
    Ok((p, (a, b, c, d, e, f, g, h)))
}

/// `fullskew_timing_check ::= "$fullskew" "(" fullskew_timing_check_arguments ")" ";"`
/// Once `$fullskew` has matched, a failure is committed.
#[verifier::opaque]
pub open spec fn spec_fullskew_timing_check(inp: Input, pos: int, nest: Nesting) -> Parsed {
    let a = spec_keyword(inp, pos, "$fullskew");
    let b0 = cut(spec_symbol(inp, rest(a), "("));
    let b1 = cut(spec_fullskew_timing_check_arguments(inp, rest(b0), nest));
    let b2 = cut(spec_symbol(inp, rest(b1), ")"));
    let b = delimited(b0, b1, b2);
    let c = cut(spec_symbol(inp, rest(b), ";"));
    seq3(a, b, c)
}

/// Parses a `fullskew_timing_check` at `pos`.
pub fn fullskew_timing_check(ctx: &mut Parser, pos: usize, depth: usize) -> (r: Result<
    (usize, FullskewTimingCheck),
    Failure,
>)
    requires
        old(ctx).wf(),
        pos <= old(ctx).input().src.len(),
    ensures
        final(ctx).wf(),
        final(ctx).input() == old(ctx).input(),
        lift(r, |n: FullskewTimingCheck| n.tree()) == spec_fullskew_timing_check(
            old(ctx).input(),
            pos as int,
            nesting(old(ctx).input(), depth as nat),
        ),
        well_spanned(
            spec_fullskew_timing_check(
                old(ctx).input(),
                pos as int,
                nesting(old(ctx).input(), depth as nat),
            ),
            pos as int,
            old(ctx).input().src.len() as int,
        ),
{
    proof {
        reveal(spec_fullskew_timing_check);
        reveal(FullskewTimingCheck::tree);
    }
    let p = pos;
    let (p, a) = keyword(ctx, p, "$fullskew")?;
    let (p, b0) = commit(symbol(ctx, p, "("))?;
    let (p, b1) = commit(fullskew_timing_check_arguments(ctx, p, depth))?;
    let (p, b2) = commit(symbol(ctx, p, ")"))?;
    let b = Paren { nodes: (b0, b1, b2) };
    let (p, c) = commit(symbol(ctx, p, ";"))?;
    Ok((p, FullskewTimingCheck { nodes: (a, b, c) }))
}

/// `period_timing_check_arguments ::= controlled_reference_event "," timing_check_limit
/// [ notifier_argument ]`
#[verifier::opaque]
pub open spec fn spec_period_timing_check_arguments(inp: Input, pos: int, nest: Nesting) -> Parsed {
    let a = spec_controlled_timing_check_event(inp, pos, nest);
    let b = spec_symbol(inp, rest(a), ",");
    let c = (nest.expression)(rest(b));
    let d = optional(spec_notifier_argument(inp, rest(c)), rest(c));
    seq4(a, b, c, d)
}

/// Parses a `period_timing_check_arguments` at `pos`.
pub fn period_timing_check_arguments(ctx: &mut Parser, pos: usize, depth: usize) -> (r: Result<
    (usize, PeriodTimingCheckArguments),
    Failure,
>)
    requires
        old(ctx).wf(),
        pos <= old(ctx).input().src.len(),
    ensures
        final(ctx).wf(),
        final(ctx).input() == old(ctx).input(),
        lift(r, |n: PeriodTimingCheckArguments| period_timing_check_arguments_tree(n))
            == spec_period_timing_check_arguments(
                old(ctx).input(),
                pos as int,
                nesting(old(ctx).input(), depth as nat),
            ),
        well_spanned(
            spec_period_timing_check_arguments(
                old(ctx).input(),
                pos as int,
                nesting(old(ctx).input(), depth as nat),
            ),
            pos as int,
            old(ctx).input().src.len() as int,
        ),
{
    proof {
        reveal(spec_period_timing_check_arguments);
        reveal(period_timing_check_arguments_tree);
    }
    let p = pos;
    let (p, a) = controlled_timing_check_event(ctx, p, depth)?;
    let (p, b) = symbol(ctx, p, ",")?;
    let (p, c) = expression(ctx, p, depth)?;
    let (p, d) = opt(notifier_argument(ctx, p), p)?;
    Ok((p, (a, b, c, d)))
}

/// `period_timing_check ::= "$period" "(" period_timing_check_arguments ")" ";"` Once
/// `$period` has matched, a failure is committed.
#[verifier::opaque]
pub open spec fn spec_period_timing_check(inp: Input, pos: int, nest: Nesting) -> Parsed {
    let a = spec_keyword(inp, pos, "$period");
    let b0 = cut(spec_symbol(inp, rest(a), "("));
    let b1 = cut(spec_period_timing_check_arguments(inp, rest(b0), nest));
    let b2 = cut(spec_symbol(inp, rest(b1), ")"));
    let b = delimited(b0, b1, b2);
    let c = cut(spec_symbol(inp, rest(b), ";"));
    seq3(a, b, c)
}

/// Parses a `period_timing_check` at `pos`.
pub fn period_timing_check(ctx: &mut Parser, pos: usize, depth: usize) -> (r: Result<
    (usize, PeriodTimingCheck),
    Failure,
>)
    requires
        old(ctx).wf(),
        pos <= old(ctx).input().src.len(),
    ensures
        final(ctx).wf(),
        final(ctx).input() == old(ctx).input(),
        lift(r, |n: PeriodTimingCheck| n.tree()) == spec_period_timing_check(
            old(ctx).input(),
            pos as int,
            nesting(old(ctx).input(), depth as nat),
        ),
        well_spanned(
            spec_period_timing_check(
                old(ctx).input(),
                pos as int,
                nesting(old(ctx).input(), depth as nat),
            ),
            pos as int,
            old(ctx).input().src.len() as int,
        ),
{
    proof {
        reveal(spec_period_timing_check);
        reveal(PeriodTimingCheck::tree);
    }
    let p = pos;
    let (p, a) = keyword(ctx, p, "$period")?;
    let (p, b0) = commit(symbol(ctx, p, "("))?;
    let (p, b1) = commit(period_timing_check_arguments(ctx, p, depth))?;
    let (p, b2) = commit(symbol(ctx, p, ")"))?;
    let b = Paren { nodes: (b0, b1, b2) };
    let (p, c) = commit(symbol(ctx, p, ";"))?;
    Ok((p, PeriodTimingCheck { nodes: (a, b, c) }))
}

/// `width_timing_check_arguments ::= controlled_reference_event "," timing_check_limit
/// "," threshold [ notifier_argument ]`
#[verifier::opaque]
pub open spec fn spec_width_timing_check_arguments(inp: Input, pos: int, nest: Nesting) -> Parsed {
    let a = spec_controlled_timing_check_event(inp, pos, nest);
    let b = spec_symbol(inp, rest(a), ",");
    let c = (nest.expression)(rest(b));
    let d = spec_symbol(inp, rest(c), ",");
    let e = (nest.expression)(rest(d));
    let f = optional(spec_notifier_argument(inp, rest(e)), rest(e));
    seq6(a, b, c, d, e, f)
}

/// Parses a `width_timing_check_arguments` at `pos`.
pub fn width_timing_check_arguments(ctx: &mut Parser, pos: usize, depth: usize) -> (r: Result<
    (usize, WidthTimingCheckArguments),
    Failure,
>)
    requires
        old(ctx).wf(),
        pos <= old(ctx).input().src.len(),
    ensures
        final(ctx).wf(),
        final(ctx).input() == old(ctx).input(),
        lift(r, |n: WidthTimingCheckArguments| width_timing_check_arguments_tree(n))
            == spec_width_timing_check_arguments(
                old(ctx).input(),
                pos as int,
                nesting(old(ctx).input(), depth as nat),
            ),
        well_spanned(
            spec_width_timing_check_arguments(
                old(ctx).input(),
                pos as int,
                nesting(old(ctx).input(), depth as nat),
            ),
            pos as int,
            old(ctx).input().src.len() as int,
        ),
{
    proof {
        reveal(spec_width_timing_check_arguments);
        reveal(width_timing_check_arguments_tree);
    }
    let p = pos;
    let (p, a) = controlled_timing_check_event(ctx, p, depth)?;
    let (p, b) = symbol(ctx, p, ",")?;
    let (p, c) = expression(ctx, p, depth)?;
    let (p, d) = symbol(ctx, p, ",")?;
    let (p, e) = expression(ctx, p, depth)?;
    let (p, f) = opt(notifier_argument(ctx, p), p)?;
    Ok((p, (a, b, c, d, e, f)))
}

/// `width_timing_check ::= "$width" "(" width_timing_check_arguments ")" ";"` Once
/// `$width` has matched, a failure is committed.
#[verifier::opaque]
pub open spec fn spec_width_timing_check(inp: Input, pos: int, nest: Nesting) -> Parsed {
    let a = spec_keyword(inp, pos, "$width");
    let b0 = cut(spec_symbol(inp, rest(a), "("));
    let b1 = cut(spec_width_timing_check_arguments(inp, rest(b0), nest));
    let b2 = cut(spec_symbol(inp, rest(b1), ")"));
    let b = delimited(b0, b1, b2);
    let c = cut(spec_symbol(inp, rest(b), ";"));
    seq3(a, b, c)
}

/// Parses a `width_timing_check` at `pos`.
pub fn width_timing_check(ctx: &mut Parser, pos: usize, depth: usize) -> (r: Result<
    (usize, WidthTimingCheck),
    Failure,
>)
    requires
        old(ctx).wf(),
        pos <= old(ctx).input().src.len(),
    ensures
        final(ctx).wf(),
        final(ctx).input() == old(ctx).input(),
        lift(r, |n: WidthTimingCheck| n.tree()) == spec_width_timing_check(
            old(ctx).input(),
            pos as int,
            nesting(old(ctx).input(), depth as nat),
        ),
        well_spanned(
            spec_width_timing_check(
                old(ctx).input(),
                pos as int,
                nesting(old(ctx).input(), depth as nat),
            ),
            pos as int,
            old(ctx).input().src.len() as int,
        ),
{
    proof {
        reveal(spec_width_timing_check);
        reveal(WidthTimingCheck::tree);
    }
    let p = pos;
    let (p, a) = keyword(ctx, p, "$width")?;
    let (p, b0) = commit(symbol(ctx, p, "("))?;
    let (p, b1) = commit(width_timing_check_arguments(ctx, p, depth))?;
    let (p, b2) = commit(symbol(ctx, p, ")"))?;
    let b = Paren { nodes: (b0, b1, b2) };
    let (p, c) = commit(symbol(ctx, p, ";"))?;
    Ok((p, WidthTimingCheck { nodes: (a, b, c) }))
}

/// `nocharge_timing_check_arguments ::= reference_event "," data_event ","
/// start_edge_offset "," end_edge_offset [ notifier_argument ]`
#[verifier::opaque]
pub open spec fn spec_nocharge_timing_check_arguments(
    inp: Input,
    pos: int,
    nest: Nesting,
) -> Parsed {
    let a = spec_timing_check_event(inp, pos, nest);
    let b = spec_symbol(inp, rest(a), ",");
    let c = spec_timing_check_event(inp, rest(b), nest);
    let d = spec_symbol(inp, rest(c), ",");
    let e = (nest.expression)(rest(d));
    let f = spec_symbol(inp, rest(e), ",");
    let g = (nest.expression)(rest(f));
    let h = optional(spec_notifier_argument(inp, rest(g)), rest(g));
    seq8(a, b, c, d, e, f, g, h)
}

/// Parses a `nocharge_timing_check_arguments` at `pos`.
pub fn nocharge_timing_check_arguments(ctx: &mut Parser, pos: usize, depth: usize) -> (r: Result<
    (usize, NochargeTimingCheckArguments),
    Failure,
>)
    requires
        old(ctx).wf(),
        pos <= old(ctx).input().src.len(),
    ensures
        final(ctx).wf(),
        final(ctx).input() == old(ctx).input(),
        lift(r, |n: NochargeTimingCheckArguments| nocharge_timing_check_arguments_tree(n))
            == spec_nocharge_timing_check_arguments(
                old(ctx).input(),
                pos as int,
                nesting(old(ctx).input(), depth as nat),
            ),
        well_spanned(
            spec_nocharge_timing_check_arguments(
                old(ctx).input(),
                pos as int,
                nesting(old(ctx).input(), depth as nat),
            ),
            pos as int,
            old(ctx).input().src.len() as int,
        ),
{
    proof {
        reveal(spec_nocharge_timing_check_arguments);
        reveal(nocharge_timing_check_arguments_tree);
    }
    let p = pos;
    let (p, a) = timing_check_event(ctx, p, depth)?;
    let (p, b) = symbol(ctx, p, ",")?;
    let (p, c) = timing_check_event(ctx, p, depth)?;
    let (p, d) = symbol(ctx, p, ",")?;
    let (p, e) = expression(ctx, p, depth)?;
    let (p, f) = symbol(ctx, p, ",")?;
    let (p, g) = expression(ctx, p, depth)?;
    let (p, h) = opt(notifier_argument(ctx, p), p)?;
    Ok((p, (a, b, c, d, e, f, g, h)))
}

/// `nocharge_timing_check ::= "$nocharge" "(" nocharge_timing_check_arguments ")" ";"`
/// Once `$nocharge` has matched, a failure is committed.
#[verifier::opaque]
pub open spec fn spec_nocharge_timing_check(inp: Input, pos: int, nest: Nesting) -> Parsed {
    let a = spec_keyword(inp, pos, "$nocharge");
    let b0 = cut(spec_symbol(inp, rest(a), "("));
    let b1 = cut(spec_nocharge_timing_check_arguments(inp, rest(b0), nest));
    let b2 = cut(spec_symbol(inp, rest(b1), ")"));
    let b = delimited(b0, b1, b2);
    let c = cut(spec_symbol(inp, rest(b), ";"));
    seq3(a, b, c)
}

/// Parses a `nocharge_timing_check` at `pos`.
pub fn nocharge_timing_check(ctx: &mut Parser, pos: usize, depth: usize) -> (r: Result<
    (usize, NochargeTimingCheck),
    Failure,
>)
    requires
        old(ctx).wf(),
        pos <= old(ctx).input().src.len(),
    ensures
        final(ctx).wf(),
        final(ctx).input() == old(ctx).input(),
        lift(r, |n: NochargeTimingCheck| n.tree()) == spec_nocharge_timing_check(
            old(ctx).input(),
            pos as int,
            nesting(old(ctx).input(), depth as nat),
        ),
        well_spanned(
            spec_nocharge_timing_check(
                old(ctx).input(),
                pos as int,
                nesting(old(ctx).input(), depth as nat),
            ),
            pos as int,
            old(ctx).input().src.len() as int,
        ),
{
    proof {
        reveal(spec_nocharge_timing_check);
        reveal(NochargeTimingCheck::tree);
    }
    let p = pos;
    let (p, a) = keyword(ctx, p, "$nocharge")?;
    let (p, b0) = commit(symbol(ctx, p, "("))?;
    let (p, b1) = commit(nocharge_timing_check_arguments(ctx, p, depth))?;
    let (p, b2) = commit(symbol(ctx, p, ")"))?;
    let b = Paren { nodes: (b0, b1, b2) };
    let (p, c) = commit(symbol(ctx, p, ";"))?;
    Ok((p, NochargeTimingCheck { nodes: (a, b, c) }))
}

/// `system_timing_check ::= setup_timing_check | hold_timing_check |
/// setuphold_timing_check | recovery_timing_check | removal_timing_check |
/// recrem_timing_check | skew_timing_check | timeskew_timing_check |
/// fullskew_timing_check | period_timing_check | width_timing_check |
/// nocharge_timing_check`
#[verifier::opaque]
pub open spec fn spec_system_timing_check(inp: Input, pos: int, nest: Nesting) -> Parsed {
    let r = variant(0, spec_setup_timing_check(inp, pos, nest));
    let r = or_else(r, variant(1, spec_hold_timing_check(inp, pos, nest)));
    let r = or_else(r, variant(2, spec_setuphold_timing_check(inp, pos, nest)));
    let r = or_else(r, variant(3, spec_recovery_timing_check(inp, pos, nest)));
    let r = or_else(r, variant(4, spec_removal_timing_check(inp, pos, nest)));
    let r = or_else(r, variant(5, spec_recrem_timing_check(inp, pos, nest)));
    let r = or_else(r, variant(6, spec_skew_timing_check(inp, pos, nest)));
    let r = or_else(r, variant(7, spec_timeskew_timing_check(inp, pos, nest)));
    let r = or_else(r, variant(8, spec_fullskew_timing_check(inp, pos, nest)));
    let r = or_else(r, variant(9, spec_period_timing_check(inp, pos, nest)));
    let r = or_else(r, variant(10, spec_width_timing_check(inp, pos, nest)));
    let r = or_else(r, variant(11, spec_nocharge_timing_check(inp, pos, nest)));
    r
}

/// Parses a `system_timing_check` at `pos`: the first alternative that matches.
#[verifier::rlimit(60)]
pub fn system_timing_check(ctx: &mut Parser, pos: usize, depth: usize) -> (r: Result<
    (usize, SystemTimingCheck),
    Failure,
>)
    requires
        old(ctx).wf(),
        pos <= old(ctx).input().src.len(),
    ensures
        final(ctx).wf(),
        final(ctx).input() == old(ctx).input(),
        lift(r, |n: SystemTimingCheck| n.tree()) == spec_system_timing_check(
            old(ctx).input(),
            pos as int,
            nesting(old(ctx).input(), depth as nat),
        ),
        well_spanned(
            spec_system_timing_check(
                old(ctx).input(),
                pos as int,
                nesting(old(ctx).input(), depth as nat),
            ),
            pos as int,
            old(ctx).input().src.len() as int,
        ),
{
    proof {
        reveal(spec_system_timing_check);
        reveal(SystemTimingCheck::tree);
    }
    let e = match setup_timing_check(ctx, pos, depth) {
        Ok((p, x)) => return Ok((p, SystemTimingCheck::SetupTimingCheck(x))),
        Err(e) => e,
    };
    if e.committed {
        return Err(e);
    }
    let e = match hold_timing_check(ctx, pos, depth) {
        Ok((p, x)) => return Ok((p, SystemTimingCheck::HoldTimingCheck(x))),
        Err(f) => if f.committed {
            return Err(f);
        } else {
            e.or_deeper(f)
        },
    };
    let e = match setuphold_timing_check(ctx, pos, depth) {
        Ok((p, x)) => return Ok((p, SystemTimingCheck::SetupholdTimingCheck(x))),
        Err(f) => if f.committed {
            return Err(f);
        } else {
            e.or_deeper(f)
        },
    };
    let e = match recovery_timing_check(ctx, pos, depth) {
        Ok((p, x)) => return Ok((p, SystemTimingCheck::RecoveryTimingCheck(x))),
        Err(f) => if f.committed {
            return Err(f);
        } else {
            e.or_deeper(f)
        },
    };
    let e = match removal_timing_check(ctx, pos, depth) {
        Ok((p, x)) => return Ok((p, SystemTimingCheck::RemovalTimingCheck(x))),
        Err(f) => if f.committed {
            return Err(f);
        } else {
            e.or_deeper(f)
        },
    };
    let e = match recrem_timing_check(ctx, pos, depth) {
        Ok((p, x)) => return Ok((p, SystemTimingCheck::RecremTimingCheck(x))),
        Err(f) => if f.committed {
            return Err(f);
        } else {
            e.or_deeper(f)
        },
    };
    let e = match skew_timing_check(ctx, pos, depth) {
        Ok((p, x)) => return Ok((p, SystemTimingCheck::SkewTimingCheck(x))),
        Err(f) => if f.committed {
            return Err(f);
        } else {
            e.or_deeper(f)
        },
    };
    let e = match timeskew_timing_check(ctx, pos, depth) {
        Ok((p, x)) => return Ok((p, SystemTimingCheck::TimeskewTimingCheck(x))),
        Err(f) => if f.committed {
            return Err(f);
        } else {
            e.or_deeper(f)
        },
    };
    let e = match fullskew_timing_check(ctx, pos, depth) {
        Ok((p, x)) => return Ok((p, SystemTimingCheck::FullskewTimingCheck(x))),
        Err(f) => if f.committed {
            return Err(f);
        } else {
            e.or_deeper(f)
        },
    };
    let e = match period_timing_check(ctx, pos, depth) {
        Ok((p, x)) => return Ok((p, SystemTimingCheck::PeriodTimingCheck(x))),
        Err(f) => if f.committed {
            return Err(f);
        } else {
            e.or_deeper(f)
        },
    };
    let e = match width_timing_check(ctx, pos, depth) {
        Ok((p, x)) => return Ok((p, SystemTimingCheck::WidthTimingCheck(x))),
        Err(f) => if f.committed {
            return Err(f);
        } else {
            e.or_deeper(f)
        },
    };
    let e = match nocharge_timing_check(ctx, pos, depth) {
        Ok((p, x)) => return Ok((p, SystemTimingCheck::NochargeTimingCheck(x))),
        Err(f) => if f.committed {
            return Err(f);
        } else {
            e.or_deeper(f)
        },
    };
    Err(e)
}

} // verus!
