//! Topics and topic filters as sequences of levels, and the rule by which a
//! filter matches a topic.

use vstd::prelude::*;
use ntex_mqtt::TopicFilterError;
use ntex_mqtt::TopicFilterLevel;

verus! {

/// One level of a topic or of a topic filter.
#[derive(Debug, PartialEq, Eq, Hash)]
pub enum Level {
    /// An ordinary name.
    Normal(String),
    /// A name that begins with `$`: a topic of the broker itself.
    Metadata(String),
    /// The empty level, as between the two separators of `a//b`.
    Blank,
    /// `+`: stands for exactly one level.
    SingleWildcard,
    /// `#`: stands for the levels that remain, and for none.
    MultiWildcard,
}

/// What a [`Level`] is, with its name as a sequence of characters.
pub enum LevelView {
    Normal(Seq<char>),
    Metadata(Seq<char>),
    Blank,
    SingleWildcard,
    MultiWildcard,
}

impl View for Level {
    type V = LevelView;

    open spec fn view(&self) -> LevelView {
        match self {
            Level::Normal(s) => LevelView::Normal(s@),
            Level::Metadata(s) => LevelView::Metadata(s@),
            Level::Blank => LevelView::Blank,
            Level::SingleWildcard => LevelView::SingleWildcard,
            Level::MultiWildcard => LevelView::MultiWildcard,
        }
    }
}

impl Clone for Level {
    fn clone(&self) -> (r: Level)
        ensures
            r == *self,
    {
        match self {
            Level::Normal(s) => Level::Normal(s.clone()),
            Level::Metadata(s) => Level::Metadata(s.clone()),
            Level::Blank => Level::Blank,
            Level::SingleWildcard => Level::SingleWildcard,
            Level::MultiWildcard => Level::MultiWildcard,
        }
    }
}

impl Level {
    pub fn is_normal(&self) -> (r: bool)
        ensures
            r == (self@ is Normal),
    {
        match self {
            Level::Normal(_) => true,
            _ => false,
        }
    }

    pub fn is_metadata(&self) -> (r: bool)
        ensures
            r == (self@ is Metadata),
    {
        match self {
            Level::Metadata(_) => true,
            _ => false,
        }
    }

    pub fn is_multi_wildcard(&self) -> (r: bool)
        ensures
            r == (self@ is MultiWildcard),
    {
        match self {
            Level::MultiWildcard => true,
            _ => false,
        }
    }

    pub fn is_single_wildcard(&self) -> (r: bool)
        ensures
            r == (self@ is SingleWildcard),
    {
        match self {
            Level::SingleWildcard => true,
            _ => false,
        }
    }

    /// Whether two levels are of the same kind and bear the same name.
    pub fn same(&self, other: &Level) -> (r: bool)
        ensures
            r == (self@ == other@),
    {
        match (self, other) {
            (Level::Normal(a), Level::Normal(b)) => *a == *b,
            (Level::Metadata(a), Level::Metadata(b)) => *a == *b,
            (Level::Blank, Level::Blank) => true,
            (Level::SingleWildcard, Level::SingleWildcard) => true,
            (Level::MultiWildcard, Level::MultiWildcard) => true,
            _ => false,
        }
    }
}

/// The levels of a sequence, each by its view.
pub open spec fn levels_view(levels: Seq<Level>) -> Seq<LevelView> {
    levels.map_values(|l: Level| l@)
}

/// Why a text is no topic filter.
#[derive(Clone, Copy, Debug, PartialEq, Eq, Structural)]
pub enum TopicError {
    /// The text is empty, or `#` stands before the last level, or a `$`
    /// name stands after the first.
    InvalidTopic,
    /// A level holds `+` or `#` beside other characters.
    InvalidLevel,
}

/// A topic name, or a topic filter: its levels from first to last.
#[derive(Debug, PartialEq, Eq, Hash)]
pub struct Topic {
    levels: Vec<Level>,
}

impl View for Topic {
    type V = Seq<LevelView>;

    closed spec fn view(&self) -> Seq<LevelView> {
        levels_view(self.levels@)
    }
}

/// What parsing a text as a topic filter gives: the levels between the
/// separators `/`, or the reason why the text is refused.
pub uninterp spec fn parsed_topic(text: Seq<char>) -> Result<Seq<LevelView>, TopicError>;

/// A parse result by its view.
pub open spec fn parse_result_view(r: Result<Topic, TopicError>) -> Result<
    Seq<LevelView>,
    TopicError,
> {
    match r {
        Ok(t) => Ok(t@),
        Err(e) => Err(e),
    }
}

/// Parses a text as a topic filter with `ntex_mqtt::TopicFilter`'s
/// implementation of `FromStr`. The contract claims only that the outcome,
/// levels or error, is determined by the characters of the text.
#[verifier::external_body]
fn parse_levels(text: &str) -> (r: Result<Topic, TopicError>)
    ensures
        parse_result_view(r) == parsed_topic(text@),
{
    let parsed = match text.parse::<ntex_mqtt::TopicFilter>() {
        Ok(t) => t,
        Err(TopicFilterError::InvalidTopic) => return Err(TopicError::InvalidTopic),
        Err(TopicFilterError::InvalidLevel) => return Err(TopicError::InvalidLevel),
    };
    Ok(Topic { levels: parsed.levels().iter().map(|l| match l {
        TopicFilterLevel::Normal(s) => Level::Normal(s.to_string()),
        TopicFilterLevel::System(s) => Level::Metadata(s.to_string()),
        TopicFilterLevel::Blank => Level::Blank,
        TopicFilterLevel::SingleWildcard => Level::SingleWildcard,
        TopicFilterLevel::MultiWildcard => Level::MultiWildcard,
    }).collect() })
}

impl Clone for Topic {
    fn clone(&self) -> (r: Topic)
        ensures
            r@ == self@,
    {
        Topic { levels: clone_levels(&self.levels) }
    }
}

/// A copy of a sequence of levels.
pub fn clone_levels(levels: &Vec<Level>) -> (r: Vec<Level>)
    ensures
        r@ == levels@,
{
    let mut out: Vec<Level> = Vec::new();
    let mut i: usize = 0;
    while i < levels.len()
        invariant
            i <= levels.len(),
            out@ == levels@.take(i as int),
        decreases levels.len() - i,
    {
        out.push(levels[i].clone());
        i = i + 1;
    }
    out
}

impl Topic {
    /// The topic with the given levels.
    pub fn from(levels: Vec<Level>) -> (r: Topic)
        ensures
            r@ == levels_view(levels@),
            r.spec_levels() == levels,
    {
        Topic { levels }
    }

    /// Parses a text such as `sport/+/player1`.
    pub fn from_str(text: &str) -> (r: Result<Topic, TopicError>)
        ensures
            parse_result_view(r) == parsed_topic(text@),
    {
        parse_levels(text)
    }

    pub closed spec fn spec_levels(&self) -> Vec<Level> {
        self.levels
    }

    /// The levels, first to last.
    pub fn levels(&self) -> (r: &Vec<Level>)
        ensures
            levels_view(r@) == self@,
            *r == self.spec_levels(),
    {
        &self.levels
    }

    /// Number of levels.
    pub fn len(&self) -> (r: usize)
        ensures
            r == self@.len(),
    {
        self.levels.len()
    }

    /// Whether two topics have the same levels.
    pub fn same(&self, other: &Topic) -> (r: bool)
        ensures
            r == (self@ == other@),
    {
        assert(self@.len() == self.levels@.len() && other@.len() == other.levels@.len());
        if self.levels.len() != other.levels.len() {
            return false;
        }
        let mut i: usize = 0;
        while i < self.levels.len()
            invariant
                i <= self.levels.len(),
                self.levels.len() == other.levels.len(),
                forall|j: int| 0 <= j < i ==> self@[j] == other@[j],
            decreases self.levels.len() - i,
        {
            if !self.levels[i].same(&other.levels[i]) {
                assert(self@[i as int] != other@[i as int]);
                return false;
            }
            i = i + 1;
        }
        assert(self@ =~= other@);
        true
    }
}

/// Whether a level of a filter admits a level of a topic. A wildcard at the
/// first level admits no `$` name.
pub open spec fn level_admits(filter: LevelView, topic: LevelView, at_root: bool) -> bool {
    if filter is SingleWildcard || filter is MultiWildcard {
        !(at_root && topic is Metadata)
    } else {
        filter == topic
    }
}

/// Whether a filter matches a topic, level by level.
///
/// A name matches the same name. `+` matches any one level. `#` matches
/// every level that remains, as long as one remains; and a filter that
/// goes on with `#` after a level matches the topic that ends there, so
/// that `a/#` matches `a` as well as `a/b/c`. At the first level neither
/// wildcard matches a `$` name.
pub open spec fn filter_matches(filter: Seq<LevelView>, topic: Seq<LevelView>, at_root: bool) -> bool
    decreases filter.len(),
{
    if filter.len() == 0 {
        topic.len() == 0
    } else if topic.len() == 0 {
        false
    } else if filter[0] is MultiWildcard {
        level_admits(filter[0], topic[0], at_root)
    } else {
        &&& level_admits(filter[0], topic[0], at_root)
        &&& {
            ||| topic.len() == 1 && filter.len() >= 2 && filter[1] is MultiWildcard
            ||| filter_matches(filter.skip(1), topic.skip(1), false)
        }
    }
}

/// Whether a level of a filter admits a level of a topic.
pub fn level_admits_exec(filter: &Level, topic: &Level, at_root: bool) -> (r: bool)
    ensures
        r == level_admits(filter@, topic@, at_root),
{
    if filter.is_single_wildcard() || filter.is_multi_wildcard() {
        !(at_root && topic.is_metadata())
    } else {
        filter.same(topic)
    }
}

impl Topic {
    /// Whether this filter matches a topic.
    pub fn matches(&self, topic: &Topic) -> (r: bool)
        ensures
            r == filter_matches(self@, topic@, true),
    {
        let f = &self.levels;
        let t = &topic.levels;
        let ghost fv = self@;
        let ghost tv = topic@;
        let mut i: usize = 0;
        proof {
            assert(fv.skip(0) =~= fv);
            assert(tv.skip(0) =~= tv);
        }
        loop
            invariant
                fv == levels_view(f@),
                tv == levels_view(t@),
                fv == self@,
                tv == topic@,
                i <= f@.len(),
                i <= t@.len(),
                filter_matches(fv, tv, true) == filter_matches(fv.skip(i as int), tv.skip(i as int), i == 0),
            decreases f@.len() - i,
        {
            let ghost fs = fv.skip(i as int);
            let ghost ts = tv.skip(i as int);
            if i == f.len() {
                return i == t.len();
            }
            if i == t.len() {
                return false;
            }
            proof {
                assert(fs[0] == f@[i as int]@);
                assert(ts[0] == t@[i as int]@);
                assert(fs.skip(1) =~= fv.skip(i + 1));
                assert(ts.skip(1) =~= tv.skip(i + 1));
            }
            if !level_admits_exec(&f[i], &t[i], i == 0) {
                return false;
            }
            if f[i].is_multi_wildcard() {
                return true;
            }
            if i + 1 == t.len() && i + 1 < f.len() && f[i + 1].is_multi_wildcard() {
                proof {
                    assert(fs[1] == f@[i + 1]@);
                }
                return true;
            }
            proof {
                if ts.len() == 1 && fs.len() >= 2 {
                    assert(fs[1] == f@[i + 1]@);
                }
            }
            i = i + 1;
        }
    }
}

/// A filter that goes on with `#` after a name matches the topic of that
/// name alone, and every topic that goes on from that name.
pub proof fn law_multi_wildcard_matches_parent_and_below(
    name: LevelView,
    below: Seq<LevelView>,
    at_root: bool,
)
    requires
        !(name is SingleWildcard),
        !(name is MultiWildcard),
    ensures
        filter_matches(seq![name, LevelView::MultiWildcard], seq![name], at_root),
        filter_matches(seq![name, LevelView::MultiWildcard], seq![name] + below, at_root),
{
    let f = seq![name, LevelView::MultiWildcard];
    let t = seq![name] + below;
    assert(f.skip(1) =~= seq![LevelView::MultiWildcard]);
    if below.len() > 0 {
        assert(t.skip(1) =~= below);
        assert(filter_matches(f.skip(1), below, false));
    } else {
        assert(t =~= seq![name]);
    }
}

/// A filter that begins with a wildcard matches no topic that begins with
/// a `$` name.
pub proof fn law_wildcards_skip_metadata_at_root(filter: Seq<LevelView>, topic: Seq<LevelView>)
    requires
        filter.len() > 0,
        filter[0] is SingleWildcard || filter[0] is MultiWildcard,
        topic.len() > 0,
        topic[0] is Metadata,
    ensures
        !filter_matches(filter, topic, true),
{
}

/// A name in a filter matches that name only, and `+` matches one level
/// whatever its name: a filter without `#` matches only topics of its own
/// length.
pub proof fn law_without_multi_wildcard_lengths_agree(
    filter: Seq<LevelView>,
    topic: Seq<LevelView>,
    at_root: bool,
)
    requires
        forall|i: int| 0 <= i < filter.len() ==> !(#[trigger] filter[i] is MultiWildcard),
        filter_matches(filter, topic, at_root),
    ensures
        filter.len() == topic.len(),
        forall|i: int|
            0 <= i < filter.len() ==> #[trigger] filter[i] is SingleWildcard || filter[i] == topic[i],
    decreases filter.len(),
{
    if filter.len() > 0 {
        let f1 = filter.skip(1);
        let t1 = topic.skip(1);
        assert forall|i: int| 0 <= i < f1.len() implies !(#[trigger] f1[i] is MultiWildcard) by {
            assert(f1[i] == filter[i + 1]);
        }
        if topic.len() == 1 && filter.len() >= 2 && filter[1] is MultiWildcard {
            assert(false);
        }
        law_without_multi_wildcard_lengths_agree(f1, t1, false);
        assert forall|i: int| 0 <= i < filter.len() implies #[trigger] filter[i] is SingleWildcard
            || filter[i] == topic[i] by {
            if i > 0 {
                assert(f1[i - 1] == filter[i]);
                assert(t1[i - 1] == topic[i]);
                assert(f1[i - 1] is SingleWildcard || f1[i - 1] == t1[i - 1]);
            }
        }
    }
}

/// A level as it is written in a topic.
pub open spec fn level_text(level: LevelView) -> Seq<char> {
    match level {
        LevelView::Normal(s) => s,
        LevelView::Metadata(s) => s,
        LevelView::Blank => Seq::empty(),
        LevelView::SingleWildcard => seq!['+'],
        LevelView::MultiWildcard => seq!['#'],
    }
}

/// A topic as it is written: its levels with `/` between them.
pub open spec fn topic_text(levels: Seq<LevelView>) -> Seq<char>
    decreases levels.len(),
{
    if levels.len() == 0 {
        Seq::empty()
    } else if levels.len() == 1 {
        level_text(levels[0])
    } else {
        topic_text(levels.drop_last()) + seq!['/'] + level_text(levels.last())
    }
}

impl Level {
    /// The level as it is written in a topic.
    pub fn as_str(&self) -> (r: &str)
        ensures
            r@ == level_text(self@),
    {
        proof {
            reveal_strlit("");
            reveal_strlit("+");
            reveal_strlit("#");
        }
        match self {
            Level::Normal(s) => s.as_str(),
            Level::Metadata(s) => s.as_str(),
            Level::Blank => {
                let r = "";
                assert(r@ =~= Seq::<char>::empty());
                r
            },
            Level::SingleWildcard => {
                let r = "+";
                assert(r@ =~= seq!['+']);
                r
            },
            Level::MultiWildcard => {
                let r = "#";
                assert(r@ =~= seq!['#']);
                r
            },
        }
    }
}

impl Topic {
    /// The topic as it is written.
    pub fn to_string(&self) -> (r: String)
        ensures
            r@ == topic_text(self@),
    {
        let mut out = String::new();
        let mut i: usize = 0;
        proof {
            reveal_strlit("/");
            assert(self@.take(0) =~= Seq::<LevelView>::empty());
        }
        while i < self.levels.len()
            invariant
                i <= self.levels@.len(),
                self@ == levels_view(self.levels@),
                out@ == topic_text(self@.take(i as int)),
                "/"@ == seq!['/'],
            decreases self.levels@.len() - i,
        {
            proof {
                let next = self@.take(i + 1);
                assert(next.drop_last() =~= self@.take(i as int));
                assert(next.last() == self.levels@[i as int]@);
                assert(next.len() == i + 1);
                if i == 0 {
                    assert(next[0] == self.levels@[0]@);
                    assert(out@ =~= Seq::<char>::empty());
                }
            }
            if i > 0 {
                out.append("/");
            }
            out.append(self.levels[i].as_str());
            proof {
                if i == 0 {
                    assert(out@ =~= level_text(self.levels@[0]@));
                }
            }
            i = i + 1;
        }
        proof {
            assert(self@.take(self.levels@.len() as int) =~= self@);
        }
        out
    }
}

} // verus!
