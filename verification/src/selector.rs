//! Which members a command targets: tokens that name a role or a member,
//! selectors built from them, and the members of a snapshot that a selector
//! picks.

use vstd::prelude::*;
use crate::roster::{member_views, Member, MemberView, Role, RoleView, Snapshot, SnapshotView};
use crate::text::{chars_of, lowercase, lowercased};

verus! {

/// The id that serenity reads from a text: the id inside a mention of a
/// user, a role or a channel, or the number that the whole text spells.
pub uninterp spec fn mentioned_id(text: Seq<char>) -> Option<u64>;

/// Texts on which the reading of a mention is defined: one that opens like a
/// mention of a user must end in an ASCII character.
pub open spec fn mention_is_readable(text: Seq<char>) -> bool {
    text.len() >= 2 && text[0] == '<' && text[1] == '@' ==> (text.last() as u32) < 128
}

/// Reads an id from `text` with serenity's `UserId::from_str`, which takes
/// the id out of a mention or else parses the text as a number. The contract
/// names the result and leaves out the texts on which that function slices
/// inside a character.
#[verifier::external_body]
fn read_id(text: &str) -> (id: Option<u64>)
    requires
        mention_is_readable(text@),
    ensures
        id == mentioned_id(text@),
{
    text.parse::<serenity::model::id::UserId>().ok().map(|user| user.0)
}

/// One word of a selector: an id, or a text that may be the name of a role.
#[derive(Debug)]
pub enum Token {
    Id(u64),
    Name(String),
}

/// What a [`Token`] stands for in contracts.
pub enum TokenView {
    Id(u64),
    Name(Seq<char>),
}

impl View for Token {
    type V = TokenView;

    open spec fn view(&self) -> TokenView {
        match self {
            Token::Id(id) => TokenView::Id(*id),
            Token::Name(name) => TokenView::Name(name@),
        }
    }
}

impl Clone for Token {
    fn clone(&self) -> (out: Self)
        ensures
            out@ == self@,
    {
        match self {
            Token::Id(id) => Token::Id(*id),
            Token::Name(name) => Token::Name(name.clone()),
        }
    }
}

/// What a token stands for in one snapshot.
#[derive(Clone, Copy, Debug, PartialEq, Eq, Structural)]
pub enum Target {
    /// Every member that holds this role.
    Role(u64),
    /// The member with this id.
    Member(u64),
    /// No one.
    Nobody,
}

/// The token for a word, given the id that was read from it.
pub open spec fn spec_token_from(text: Seq<char>, id: Option<u64>) -> TokenView {
    match id {
        Some(id) => TokenView::Id(id),
        None => TokenView::Name(text),
    }
}

/// The token for a word.
pub open spec fn spec_token(text: Seq<char>) -> TokenView {
    if mention_is_readable(text) {
        spec_token_from(text, mentioned_id(text))
    } else {
        TokenView::Name(text)
    }
}

/// Whether `token` names `role`: by its id, or by its name whatever the case
/// of the letters.
pub open spec fn names_role(token: TokenView, role: RoleView) -> bool {
    match token {
        TokenView::Id(id) => role.id == id,
        TokenView::Name(name) => lowercased(role.name) == lowercased(name),
    }
}

/// The position of the first role from `from` on that `token` names.
pub open spec fn first_role_from(token: TokenView, roles: Seq<RoleView>, from: int) -> Option<int>
    decreases roles.len() - from,
{
    if from < 0 || from >= roles.len() {
        None
    } else if names_role(token, roles[from]) {
        Some(from)
    } else {
        first_role_from(token, roles, from + 1)
    }
}

/// The first role, in the server's order, that `token` names.
pub open spec fn spec_role_of(token: TokenView, snapshot: SnapshotView) -> Option<RoleView> {
    match first_role_from(token, snapshot.roles, 0) {
        Some(i) => Some(snapshot.roles[i]),
        None => None,
    }
}

/// What `token` stands for: the role it names if it names one, else the
/// member whose id it is, else no one.
pub open spec fn spec_target(token: TokenView, snapshot: SnapshotView) -> Target {
    match spec_role_of(token, snapshot) {
        Some(role) => Target::Role(role.id),
        None => match token {
            TokenView::Id(id) => Target::Member(id),
            TokenView::Name(_) => Target::Nobody,
        },
    }
}

/// Whether `member` is among those that `target` stands for.
pub open spec fn covers(target: Target, member: MemberView) -> bool {
    match target {
        Target::Role(role) => member.roles.contains(role),
        Target::Member(id) => member.id == id,
        Target::Nobody => false,
    }
}

/// Whether `token` picks `member` in `snapshot`.
pub open spec fn token_picks(token: TokenView, snapshot: SnapshotView, member: MemberView) -> bool {
    covers(spec_target(token, snapshot), member)
}

/// The members that `token` picks, in the server's order.
pub open spec fn spec_members_of(token: TokenView, snapshot: SnapshotView) -> Seq<MemberView> {
    snapshot.members.filter(|m: MemberView| token_picks(token, snapshot, m))
}

/// The ids of the members that `token` picks, in the server's order.
pub open spec fn spec_resolve(token: TokenView, snapshot: SnapshotView) -> Seq<u64> {
    spec_members_of(token, snapshot).map_values(|m: MemberView| m.id)
}

/// The first match wins: where a role is found, the token names it and no
/// role before it from `from` on; where none is found, the token names none.
pub proof fn lemma_first_role(token: TokenView, roles: Seq<RoleView>, from: int)
    requires
        0 <= from,
    ensures
        match first_role_from(token, roles, from) {
            Some(i) => {
                &&& from <= i < roles.len()
                &&& names_role(token, roles[i])
                &&& forall|k: int| from <= k < i ==> !names_role(token, #[trigger] roles[k])
            },
            None => forall|k: int|
                from <= k < roles.len() ==> !names_role(token, #[trigger] roles[k]),
        },
    decreases roles.len() - from,
{
    if from < roles.len() && !names_role(token, roles[from]) {
        lemma_first_role(token, roles, from + 1);
    }
}

impl Token {
    /// The token for `text`, given the id `id` that was read from it.
    pub fn from_reading(text: &str, id: Option<u64>) -> (out: Token)
        ensures
            out@ == spec_token_from(text@, id),
    {
        match id {
            Some(id) => Token::Id(id),
            None => Token::Name(text.to_owned()),
        }
    }

    /// The token for one word of a command: an id where the word is a
    /// mention or a number, else the word as the candidate name of a role.
    pub fn parse(text: &str) -> (out: Token)
        ensures
            out@ == spec_token(text@),
    {
        let chars = chars_of(text);
        let n: usize = chars.len();
        if n >= 2 && chars[0] == '<' && chars[1] == '@' && chars[n - 1] as u32 >= 128 {
            Token::Name(text.to_owned())
        } else {
            Token::from_reading(text, read_id(text))
        }
    }

    /// The first role of `snapshot`, in the server's order, that this token
    /// names by id or, whatever the case, by name.
    pub fn as_role(&self, snapshot: &Snapshot) -> (out: Option<Role>)
        ensures
            match out {
                Some(role) => spec_role_of(self@, snapshot@) == Some(role@),
                None => spec_role_of(self@, snapshot@) is None,
            },
    {
        let folded: Option<String> = match self {
            Token::Id(_) => None,
            Token::Name(name) => Some(lowercase(name.as_str())),
        };
        let mut i: usize = 0;
        while i < snapshot.role_count()
            invariant
                i <= snapshot@.roles.len(),
                first_role_from(self@, snapshot@.roles, 0) == first_role_from(
                    self@,
                    snapshot@.roles,
                    i as int,
                ),
                match (self, folded) {
                    (Token::Id(_), None) => true,
                    (Token::Name(name), Some(low)) => low@ == lowercased(name@),
                    _ => false,
                },
            decreases snapshot@.roles.len() - i,
        {
            let role = snapshot.role(i);
            let named: bool = match self {
                Token::Id(id) => role.id == *id,
                Token::Name(_) => match &folded {
                    Some(low) => lowercase(role.name.as_str()) == *low,
                    None => false,
                },
            };
            assert(named == names_role(self@, snapshot@.roles[i as int]));
            if named {
                return Some(role.clone());
            }
            i += 1;
        }
        None
    }

    /// What this token stands for in `snapshot`.
    pub fn target(&self, snapshot: &Snapshot) -> (out: Target)
        ensures
            out == spec_target(self@, snapshot@),
    {
        match self.as_role(snapshot) {
            Some(role) => Target::Role(role.id),
            None => match self {
                Token::Id(id) => Target::Member(*id),
                Token::Name(_) => Target::Nobody,
            },
        }
    }

    /// The members of `snapshot` that this token picks: those that hold the
    /// role it names, or else the one member whose id it is; in the server's
    /// order.
    pub fn members(&self, snapshot: &Snapshot) -> (out: Vec<Member>)
        ensures
            member_views(out@) == spec_members_of(self@, snapshot@),
    {
        let target = self.target(snapshot);
        let ghost pick = |m: MemberView| token_picks(self@, snapshot@, m);
        let mut out: Vec<Member> = Vec::new();
        let mut i: usize = 0;
        proof {
            reveal(Seq::filter);
            assert(snapshot@.members.take(0).filter(pick) =~= Seq::<MemberView>::empty());
            assert(member_views(out@) =~= Seq::<MemberView>::empty());
        }
        while i < snapshot.member_count()
            invariant
                i <= snapshot@.members.len(),
                target == spec_target(self@, snapshot@),
                pick == |m: MemberView| token_picks(self@, snapshot@, m),
                member_views(out@) == snapshot@.members.take(i as int).filter(pick),
            decreases snapshot@.members.len() - i,
        {
            let member = snapshot.member(i);
            let ghost before = out@;
            proof {
                assert(snapshot@.members.take(i + 1) =~= snapshot@.members.take(i as int).push(
                    member@,
                ));
                snapshot@.members.take(i as int).lemma_filter_push(member@, pick);
            }
            if target.covers(member) {
                out.push(member.clone());
                assert(member_views(out@) =~= member_views(before).push(member@));
            }
            i += 1;
        }
        assert(snapshot@.members.take(i as int) =~= snapshot@.members);
        out
    }

    /// The ids of the members of `snapshot` that this token picks, in the
    /// server's order. A token that names no role and is no member's id
    /// resolves to nothing.
    pub fn resolve(&self, snapshot: &Snapshot) -> (out: Vec<u64>)
        ensures
            out@ == spec_resolve(self@, snapshot@),
    {
        let picked = self.members(snapshot);
        let mut out: Vec<u64> = Vec::new();
        let mut i: usize = 0;
        while i < picked.len()
            invariant
                i <= picked.len(),
                out@ == member_views(picked@).map_values(|m: MemberView| m.id).take(i as int),
            decreases picked.len() - i,
        {
            out.push(picked[i].id);
            i += 1;
        }
        out
    }
}

impl Target {
    /// Whether `member` is among those that this target stands for.
    pub fn covers(&self, member: &Member) -> (out: bool)
        ensures
            out == covers(*self, member@),
    {
        match self {
            Target::Role(role) => member.has_role(*role),
            Target::Member(id) => member.id == *id,
            Target::Nobody => false,
        }
    }
}

/// Which members a command targets.
#[derive(Debug)]
pub enum Selector {
    /// The members that some token picks.
    Include(Vec<Token>),
    /// Every member that no token picks.
    Exclude(Vec<Token>),
    /// Every member.
    Everyone,
}

/// What a [`Selector`] stands for in contracts.
pub enum SelectorView {
    Include(Seq<TokenView>),
    Exclude(Seq<TokenView>),
    Everyone,
}

/// The views of a list of tokens, in the same order.
pub open spec fn token_views(tokens: Seq<Token>) -> Seq<TokenView> {
    tokens.map_values(|t: Token| t@)
}

impl View for Selector {
    type V = SelectorView;

    open spec fn view(&self) -> SelectorView {
        match self {
            Selector::Include(tokens) => SelectorView::Include(token_views(tokens@)),
            Selector::Exclude(tokens) => SelectorView::Exclude(token_views(tokens@)),
            Selector::Everyone => SelectorView::Everyone,
        }
    }
}

/// Why the words of a command are no selector.
#[derive(Clone, Copy, Debug, PartialEq, Eq, Structural)]
pub enum SelectorError {
    /// The separator stands alone: nothing follows it to exclude.
    NothingToExclude,
}

impl SelectorError {
    /// The message for the person who gave the command.
    pub open spec fn spec_message(&self) -> Seq<char> {
        "When using --, please specify users to exclude."@
    }

    /// The message for the person who gave the command.
    pub fn message(&self) -> (out: String)
        ensures
            out@ == self.spec_message(),
    {
        "When using --, please specify users to exclude.".to_owned()
    }
}

/// The texts of a list of words, in the same order.
pub open spec fn word_views(words: Seq<String>) -> Seq<Seq<char>> {
    words.map_values(|w: String| w@)
}

/// The tokens of a list of words, in the same order.
pub open spec fn spec_tokens(words: Seq<Seq<char>>) -> Seq<TokenView> {
    words.map_values(|w: Seq<char>| spec_token(w))
}

/// The selector that a list of words spells: none means everyone, a leading
/// `--` excludes the words after it, and any other list includes its words.
pub open spec fn spec_selector(words: Seq<Seq<char>>) -> Result<SelectorView, SelectorError> {
    if words.len() == 0 {
        Ok(SelectorView::Everyone)
    } else if words[0] == "--"@ {
        if words.len() == 1 {
            Err(SelectorError::NothingToExclude)
        } else {
            Ok(SelectorView::Exclude(spec_tokens(words.skip(1))))
        }
    } else {
        Ok(SelectorView::Include(spec_tokens(words)))
    }
}

/// Whether some token of `tokens` picks `member`.
pub open spec fn any_picks(
    tokens: Seq<TokenView>,
    snapshot: SnapshotView,
    member: MemberView,
) -> bool {
    exists|i: int| 0 <= i < tokens.len() && token_picks(#[trigger] tokens[i], snapshot, member)
}

/// Whether `selector` picks `member` in `snapshot`.
pub open spec fn selects(selector: SelectorView, snapshot: SnapshotView, member: MemberView) -> bool {
    match selector {
        SelectorView::Include(tokens) => any_picks(tokens, snapshot, member),
        SelectorView::Exclude(tokens) => !any_picks(tokens, snapshot, member),
        SelectorView::Everyone => true,
    }
}

/// The members that `selector` picks, in the server's order.
pub open spec fn spec_select(selector: SelectorView, snapshot: SnapshotView) -> Seq<MemberView> {
    snapshot.members.filter(|m: MemberView| selects(selector, snapshot, m))
}

/// No two members of `members` share an id.
pub open spec fn distinct_ids(members: Seq<MemberView>) -> bool {
    forall|i: int, j: int| 0 <= i < j < members.len() ==> members[i].id != members[j].id
}

fn is_separator(word: &str) -> (out: bool)
    ensures
        out == (word@ == "--"@),
{
    proof {
        reveal_strlit("--");
    }
    let chars = chars_of(word);
    let out = chars.len() == 2 && chars[0] == '-' && chars[1] == '-';
    assert(out == (word@ =~= "--"@));
    out
}

fn tokens_of(words: &Vec<String>, from: usize) -> (out: Vec<Token>)
    requires
        from <= words.len(),
    ensures
        token_views(out@) == spec_tokens(word_views(words@).skip(from as int)),
{
    let mut out: Vec<Token> = Vec::new();
    let mut i: usize = from;
    while i < words.len()
        invariant
            from <= i <= words.len(),
            out.len() == i - from,
            forall|k: int| 0 <= k < out.len() ==> (#[trigger] out@[k])@ == spec_token(words@[from + k]@),
        decreases words.len() - i,
    {
        out.push(Token::parse(words[i].as_str()));
        i += 1;
    }
    assert(token_views(out@) =~= spec_tokens(word_views(words@).skip(from as int)));
    out
}

impl Selector {
    /// The selector that the words of a command spell.
    pub fn parse(words: &Vec<String>) -> (out: Result<Selector, SelectorError>)
        ensures
            match out {
                Ok(selector) => spec_selector(word_views(words@)) == Ok::<
                    SelectorView,
                    SelectorError,
                >(selector@),
                Err(error) => spec_selector(word_views(words@)) == Err::<
                    SelectorView,
                    SelectorError,
                >(error),
            },
    {
        if words.len() == 0 {
            return Ok(Selector::Everyone);
        }
        assert(word_views(words@)[0] == words@[0]@);
        assert(word_views(words@).skip(0) =~= word_views(words@));
        if is_separator(words[0].as_str()) {
            if words.len() == 1 {
                Err(SelectorError::NothingToExclude)
            } else {
                Ok(Selector::Exclude(tokens_of(words, 1)))
            }
        } else {
            Ok(Selector::Include(tokens_of(words, 0)))
        }
    }

    /// The members of `snapshot` that this selector picks, each once, in the
    /// server's order.
    pub fn select(&self, snapshot: &Snapshot) -> (out: Vec<Member>)
        requires
            snapshot.wf(),
        ensures
            member_views(out@) == spec_select(self@, snapshot@),
            distinct_ids(member_views(out@)),
    {
        let (targets, wanted): (Vec<Target>, bool) = match self {
            Selector::Include(tokens) => (targets_of(tokens, snapshot), true),
            Selector::Exclude(tokens) => (targets_of(tokens, snapshot), false),
            Selector::Everyone => (Vec::new(), false),
        };
        let ghost tokens: Seq<TokenView> = match self@ {
            SelectorView::Include(tokens) => tokens,
            SelectorView::Exclude(tokens) => tokens,
            SelectorView::Everyone => Seq::empty(),
        };
        let ghost pick = |m: MemberView| selects(self@, snapshot@, m);
        let mut out: Vec<Member> = Vec::new();
        let mut i: usize = 0;
        proof {
            reveal(Seq::filter);
            assert(snapshot@.members.take(0).filter(pick) =~= Seq::<MemberView>::empty());
            assert(member_views(out@) =~= Seq::<MemberView>::empty());
        }
        while i < snapshot.member_count()
            invariant
                i <= snapshot@.members.len(),
                targets.len() == tokens.len(),
                forall|k: int|
                    0 <= k < tokens.len() ==> #[trigger] targets@[k] == spec_target(
                        tokens[k],
                        snapshot@,
                    ),
                forall|m: MemberView|
                    selects(self@, snapshot@, m) == (any_picks(tokens, snapshot@, m) == wanted),
                pick == |m: MemberView| selects(self@, snapshot@, m),
                member_views(out@) == snapshot@.members.take(i as int).filter(pick),
            decreases snapshot@.members.len() - i,
        {
            let member = snapshot.member(i);
            let ghost before = out@;
            proof {
                assert(snapshot@.members.take(i + 1) =~= snapshot@.members.take(i as int).push(
                    member@,
                ));
                snapshot@.members.take(i as int).lemma_filter_push(member@, pick);
            }
            if any_covers(&targets, member, Ghost(tokens), Ghost(snapshot@)) == wanted {
                out.push(member.clone());
                assert(member_views(out@) =~= member_views(before).push(member@));
            }
            i += 1;
        }
        proof {
            assert(snapshot@.members.take(i as int) =~= snapshot@.members);
            lemma_select_distinct(self@, snapshot@);
        }
        out
    }
}

fn targets_of(tokens: &Vec<Token>, snapshot: &Snapshot) -> (out: Vec<Target>)
    ensures
        out.len() == tokens.len(),
        forall|k: int|
            0 <= k < tokens.len() ==> #[trigger] out@[k] == spec_target(
                token_views(tokens@)[k],
                snapshot@,
            ),
{
    let mut out: Vec<Target> = Vec::new();
    let mut i: usize = 0;
    while i < tokens.len()
        invariant
            i <= tokens.len(),
            out.len() == i,
            forall|k: int| 0 <= k < i ==> #[trigger] out@[k] == spec_target(tokens@[k]@, snapshot@),
        decreases tokens.len() - i,
    {
        out.push(tokens[i].target(snapshot));
        i += 1;
    }
    out
}

fn any_covers(
    targets: &Vec<Target>,
    member: &Member,
    Ghost(tokens): Ghost<Seq<TokenView>>,
    Ghost(snapshot): Ghost<SnapshotView>,
) -> (out: bool)
    requires
        targets.len() == tokens.len(),
        forall|k: int|
            0 <= k < tokens.len() ==> #[trigger] targets@[k] == spec_target(tokens[k], snapshot),
    ensures
        out == any_picks(tokens, snapshot, member@),
{
    let mut i: usize = 0;
    while i < targets.len()
        invariant
            i <= targets.len(),
            targets.len() == tokens.len(),
            forall|k: int|
                0 <= k < tokens.len() ==> #[trigger] targets@[k] == spec_target(
                    tokens[k],
                    snapshot,
                ),
            forall|k: int| 0 <= k < i ==> !token_picks(#[trigger] tokens[k], snapshot, member@),
        decreases targets.len() - i,
    {
        if targets[i].covers(member) {
            assert(token_picks(tokens[i as int], snapshot, member@));
            return true;
        }
        i += 1;
    }
    false
}

/// A filtered list of members with distinct ids has distinct ids.
pub proof fn lemma_filter_keeps_distinct(members: Seq<MemberView>, pick: spec_fn(MemberView) -> bool)
    requires
        distinct_ids(members),
    ensures
        distinct_ids(members.filter(pick)),
        forall|m: MemberView| #[trigger]
            members.filter(pick).contains(m) ==> members.contains(m) && pick(m),
    decreases members.len(),
{
    reveal(Seq::filter);
    if members.len() > 0 {
        let init = members.drop_last();
        let last = members.last();
        assert(distinct_ids(init)) by {
            assert forall|i: int, j: int| 0 <= i < j < init.len() implies init[i].id
                != init[j].id by {
                assert(init[i] == members[i] && init[j] == members[j]);
            }
        }
        lemma_filter_keeps_distinct(init, pick);
        let kept = init.filter(pick);
        assert forall|m: MemberView| #[trigger]
            members.filter(pick).contains(m) implies members.contains(m) && pick(m) by {
            let k = choose|k: int| 0 <= k < members.filter(pick).len() && members.filter(pick)[k]
                == m;
            if k < kept.len() {
                assert(kept[k] == m);
                assert(kept.contains(m));
                let at = choose|at: int| 0 <= at < init.len() && init[at] == m;
                assert(members[at] == m);
            } else {
                assert(m == last);
                assert(members[members.len() - 1] == m);
            }
        }
        if pick(last) {
            assert forall|i: int, j: int| 0 <= i < j < kept.push(last).len() implies kept.push(
                last,
            )[i].id != kept.push(last)[j].id by {
                if j == kept.len() {
                    assert(kept.contains(kept[i]));
                    let at = choose|at: int| 0 <= at < init.len() && init[at] == kept[i];
                    assert(members[at] == kept[i]);
                    assert(members[members.len() - 1] == last);
                }
            }
        }
    }
}

/// A selector never picks a member twice, whatever tokens overlap: the
/// members it picks from a snapshot have distinct ids.
pub proof fn lemma_select_distinct(selector: SelectorView, snapshot: SnapshotView)
    requires
        snapshot.wf(),
    ensures
        distinct_ids(spec_select(selector, snapshot)),
{
    lemma_filter_keeps_distinct(
        snapshot.members,
        |m: MemberView| selects(selector, snapshot, m),
    );
}

/// The members that pass a test and those that fail it make up the whole list.
pub proof fn lemma_filter_splits(members: Seq<MemberView>, pick: spec_fn(MemberView) -> bool)
    ensures
        members.filter(pick).to_multiset().add(
            members.filter(|m: MemberView| !pick(m)).to_multiset(),
        ) =~= members.to_multiset(),
    decreases members.len(),
{
    reveal(Seq::filter);
    broadcast use vstd::seq_lib::group_to_multiset_ensures;

    let rest = |m: MemberView| !pick(m);
    if members.len() == 0 {
        assert(members.filter(pick) =~= Seq::<MemberView>::empty());
        assert(members.filter(rest) =~= Seq::<MemberView>::empty());
    } else {
        let init = members.drop_last();
        let last = members.last();
        lemma_filter_splits(init, pick);
        assert(members =~= init.push(last));
        if pick(last) {
            assert(members.filter(pick) == init.filter(pick).push(last));
            assert(members.filter(rest) == init.filter(rest));
        } else {
            assert(members.filter(pick) == init.filter(pick));
            assert(members.filter(rest) == init.filter(rest).push(last));
        }
    }
}

/// Including a list of tokens and excluding the same list split the server
/// between them: selecting everyone gives every member, each member is
/// picked by exactly one of the two selectors, and the two selections
/// together hold each member as often as the server does.
pub proof fn lemma_include_exclude_partition(tokens: Seq<TokenView>, snapshot: SnapshotView)
    ensures
        spec_select(SelectorView::Everyone, snapshot) == snapshot.members,
        forall|m: MemberView|
            selects(SelectorView::Include(tokens), snapshot, m) != selects(
                SelectorView::Exclude(tokens),
                snapshot,
                m,
            ),
        spec_select(SelectorView::Include(tokens), snapshot).to_multiset().add(
            spec_select(SelectorView::Exclude(tokens), snapshot).to_multiset(),
        ) == snapshot.members.to_multiset(),
{
    let all = |m: MemberView| selects(SelectorView::Everyone, snapshot, m);
    let included = |m: MemberView| selects(SelectorView::Include(tokens), snapshot, m);
    let excluded = |m: MemberView| selects(SelectorView::Exclude(tokens), snapshot, m);
    let others = |m: MemberView| !included(m);
    assert(snapshot.members.filter(all) == snapshot.members) by {
        lemma_filter_all(snapshot.members, all);
    }
    assert(excluded =~= others);
    lemma_filter_splits(snapshot.members, included);
}

/// A filter that every member passes changes nothing.
pub proof fn lemma_filter_all(members: Seq<MemberView>, pick: spec_fn(MemberView) -> bool)
    requires
        forall|m: MemberView| #[trigger] pick(m),
    ensures
        members.filter(pick) == members,
    decreases members.len(),
{
    reveal(Seq::filter);
    if members.len() > 0 {
        lemma_filter_all(members.drop_last(), pick);
        assert(members.drop_last().push(members.last()) =~= members);
    }
}

/// Two names that differ only in the case of their letters find the same
/// role from any position on.
pub proof fn lemma_first_role_ignores_case(
    a: Seq<char>,
    b: Seq<char>,
    roles: Seq<RoleView>,
    from: int,
)
    requires
        lowercased(a) == lowercased(b),
    ensures
        first_role_from(TokenView::Name(a), roles, from) == first_role_from(
            TokenView::Name(b),
            roles,
            from,
        ),
    decreases roles.len() - from,
{
    if 0 <= from < roles.len() {
        lemma_first_role_ignores_case(a, b, roles, from + 1);
    }
}

/// Names of roles are matched whatever the case of their letters: two names
/// with the same lowercase form stand for the same target and pick the same
/// members in every snapshot.
pub proof fn lemma_resolution_ignores_case(a: Seq<char>, b: Seq<char>, snapshot: SnapshotView)
    requires
        lowercased(a) == lowercased(b),
    ensures
        spec_target(TokenView::Name(a), snapshot) == spec_target(TokenView::Name(b), snapshot),
        spec_members_of(TokenView::Name(a), snapshot) == spec_members_of(
            TokenView::Name(b),
            snapshot,
        ),
        spec_resolve(TokenView::Name(a), snapshot) == spec_resolve(TokenView::Name(b), snapshot),
{
    lemma_first_role_ignores_case(a, b, snapshot.roles, 0);
    let pick_a = |m: MemberView| token_picks(TokenView::Name(a), snapshot, m);
    let pick_b = |m: MemberView| token_picks(TokenView::Name(b), snapshot, m);
    assert(pick_a =~= pick_b);
}

} // verus!
