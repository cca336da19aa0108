//! The cookies kept for the franime site: a store of cookies by name, the
//! Cloudflare clearance read from it, and the `Cookie` header made of it.
use vstd::prelude::*;
use crate::text::{owned, push_str, str_eq};

verus! {

/// The name of the Cloudflare clearance cookie.
pub const CF_COOKIE_KEY: &'static str = "cf_clearance";

/// The position of the cookie named `k`.
pub open spec fn name_pos(s: Seq<(Seq<char>, Seq<char>)>, k: Seq<char>) -> Option<int>
    decreases s.len(),
{
    if s.len() == 0 {
        None
    } else if s.last().0 == k {
        Some(s.len() - 1)
    } else {
        name_pos(s.drop_last(), k)
    }
}

/// The value of the cookie named `k`, if there is one.
pub open spec fn lookup(s: Seq<(Seq<char>, Seq<char>)>, k: Seq<char>) -> Option<Seq<char>> {
    match name_pos(s, k) {
        Some(i) => Some(s[i].1),
        None => None,
    }
}

/// The cookies after setting `k` to `v`: its value is replaced where it is
/// already there, else it is added last.
pub open spec fn set_spec(s: Seq<(Seq<char>, Seq<char>)>, k: Seq<char>, v: Seq<char>) -> Seq<(Seq<char>, Seq<char>)> {
    match name_pos(s, k) {
        Some(i) => s.update(i, (k, v)),
        None => s.push((k, v)),
    }
}

/// The cookies after setting each pair in turn.
pub open spec fn set_all_spec(s: Seq<(Seq<char>, Seq<char>)>, all: Seq<(Seq<char>, Seq<char>)>) -> Seq<(Seq<char>, Seq<char>)>
    decreases all.len(),
{
    if all.len() == 0 {
        s
    } else {
        set_spec(set_all_spec(s, all.drop_last()), all.last().0, all.last().1)
    }
}

/// The last clearance among the pairs set, if any.
pub open spec fn last_clearance(all: Seq<(Seq<char>, Seq<char>)>) -> Option<Seq<char>>
    decreases all.len(),
{
    if all.len() == 0 {
        None
    } else if all.last().0 == CF_COOKIE_KEY@ {
        Some(all.last().1)
    } else {
        last_clearance(all.drop_last())
    }
}

/// No name occurs twice.
pub open spec fn names_distinct(s: Seq<(Seq<char>, Seq<char>)>) -> bool {
    forall|i: int, j: int| 0 <= i < j < s.len() ==> #[trigger] s[i].0 != #[trigger] s[j].0
}

/// The `Cookie` header: `name=value` for each cookie, in order, joined by
/// `; `.
pub open spec fn header_spec(s: Seq<(Seq<char>, Seq<char>)>) -> Seq<char>
    decreases s.len(),
{
    if s.len() == 0 {
        Seq::empty()
    } else if s.len() == 1 {
        s[0].0 + "="@ + s[0].1
    } else {
        header_spec(s.drop_last()) + "; "@ + s.last().0 + "="@ + s.last().1
    }
}

proof fn lemma_name_pos(s: Seq<(Seq<char>, Seq<char>)>, k: Seq<char>)
    ensures
        name_pos(s, k) matches Some(i) ==> 0 <= i < s.len() && s[i].0 == k,
        name_pos(s, k) is None ==> forall|j: int| 0 <= j < s.len() ==> #[trigger] s[j].0 != k,
    decreases s.len(),
{
    if s.len() > 0 && s.last().0 != k {
        let d = s.drop_last();
        lemma_name_pos(d, k);
        if name_pos(d, k) is None {
            assert forall|j: int| 0 <= j < s.len() implies #[trigger] s[j].0 != k by {
                if j < s.len() - 1 {
                    assert(s[j] == d[j]);
                }
            }
        }
    }
}

proof fn lemma_name_pos_unique(s: Seq<(Seq<char>, Seq<char>)>, k: Seq<char>, i: int)
    requires
        names_distinct(s),
        0 <= i < s.len(),
        s[i].0 == k,
    ensures
        name_pos(s, k) == Some(i),
    decreases s.len(),
{
    if i < s.len() - 1 {
        let d = s.drop_last();
        assert(s[i] == d[i]);
        assert(s.last().0 != k) by {
            assert(s[i].0 != s[s.len() - 1].0);
        }
        assert(names_distinct(d)) by {
            assert forall|a: int, b: int| 0 <= a < b < d.len() implies #[trigger] d[a].0 != #[trigger] d[b].0 by {
                assert(d[a] == s[a] && d[b] == s[b]);
            }
        }
        lemma_name_pos_unique(d, k, i);
    }
}

/// Setting a cookie keeps the names distinct; afterwards the cookie reads
/// the value set, and every other cookie reads what it read before.
pub proof fn lemma_set_then_lookup(s: Seq<(Seq<char>, Seq<char>)>, k: Seq<char>, v: Seq<char>, other: Seq<char>)
    requires
        names_distinct(s),
    ensures
        names_distinct(set_spec(s, k, v)),
        lookup(set_spec(s, k, v), k) == Some(v),
        other != k ==> lookup(set_spec(s, k, v), other) == lookup(s, other),
{
    lemma_name_pos(s, k);
    lemma_name_pos(s, other);
    let t = set_spec(s, k, v);
    match name_pos(s, k) {
        Some(i) => {
            assert forall|a: int, b: int| 0 <= a < b < t.len() implies #[trigger] t[a].0 != #[trigger] t[b].0 by {
                assert(s[a].0 != s[b].0);
            }
            lemma_name_pos_unique(t, k, i);
            match name_pos(s, other) {
                Some(j) => {
                    if other != k {
                        lemma_name_pos_unique(t, other, j);
                    }
                },
                None => {
                    if other != k {
                        lemma_name_pos(t, other);
                        match name_pos(t, other) {
                            Some(j) => {
                                assert(t[j].0 == other);
                                if j != i {
                                    assert(s[j].0 == other);
                                }
                            },
                            None => {},
                        }
                    }
                },
            }
        },
        None => {
            assert forall|a: int, b: int| 0 <= a < b < t.len() implies #[trigger] t[a].0 != #[trigger] t[b].0 by {
                if b < s.len() {
                    assert(s[a].0 != s[b].0);
                }
            }
            lemma_name_pos_unique(t, k, s.len() as int);
            if other != k {
                assert(t.drop_last() =~= s);
            }
        },
    }
}

/// The browser identity the requests start with.
pub const DEFAULT_CHROME_UA: &'static str =
    "Mozilla/5.0 (Macintosh; Intel Mac OS X 10_15_7) AppleWebKit/537.36 (KHTML, like Gecko) Chrome/131.0.0.0 Safari/537.36";

/// The cookies of the site, by name, each name once, in the order they were
/// first set; and the user agent the clearance was obtained with.
pub struct CookieJar {
    pub cookies: Vec<(String, String)>,
    pub user_agent: String,
}

impl CookieJar {
    /// The cookies as plain values.
    pub open spec fn pairs(&self) -> Seq<(Seq<char>, Seq<char>)> {
        self.cookies.deep_view()
    }

    /// A jar holding the initial clearance, when it is not empty.
    pub fn new(initial_cf_clearance: &str) -> (j: Self)
        ensures
            initial_cf_clearance@.len() == 0 ==> j.pairs() == Seq::<(Seq<char>, Seq<char>)>::empty(),
            initial_cf_clearance@.len() > 0 ==> j.pairs() == seq![(CF_COOKIE_KEY@, initial_cf_clearance@)],
            names_distinct(j.pairs()),
            j.user_agent@ == DEFAULT_CHROME_UA@,
    {
        let mut cookies: Vec<(String, String)> = Vec::new();
        if !initial_cf_clearance.is_empty() {
            cookies.push((owned(CF_COOKIE_KEY), owned(initial_cf_clearance)));
            assert(cookies.deep_view() =~= seq![(CF_COOKIE_KEY@, initial_cf_clearance@)]);
        } else {
            assert(cookies.deep_view() =~= Seq::<(Seq<char>, Seq<char>)>::empty());
        }
        CookieJar { cookies, user_agent: owned(DEFAULT_CHROME_UA) }
    }

    /// The user agent the requests are made with.
    pub fn user_agent(&self) -> (r: String)
        ensures
            r@ == self.user_agent@,
    {
        owned(self.user_agent.as_str())
    }

    /// Changes the user agent; the cookies stay as they are.
    pub fn set_user_agent(&mut self, ua: String)
        ensures
            final(self).user_agent == ua,
            final(self).cookies == old(self).cookies,
    {
        self.user_agent = ua;
    }

    fn position(&self, k: &str) -> (r: Option<usize>)
        ensures
            r matches Some(i) ==> name_pos(self.pairs(), k@) == Some(i as int),
            r is None ==> name_pos(self.pairs(), k@) is None,
            r matches Some(i) ==> i < self.cookies@.len() && self.pairs()[i as int] == (
                self.cookies@[i as int].0@,
                self.cookies@[i as int].1@,
            ),
    {
        proof {
            lemma_name_pos(self.pairs(), k@);
        }
        let mut i: usize = self.cookies.len();
        assert(self.pairs().take(i as int) =~= self.pairs());
        while i > 0
            invariant
                i <= self.cookies@.len(),
                name_pos(self.pairs(), k@) == name_pos(self.pairs().take(i as int), k@),
            decreases i,
        {
            let ghost pre = self.pairs().take(i as int);
            assert(pre.drop_last() =~= self.pairs().take(i as int - 1));
            assert(pre.last() == self.pairs()[i as int - 1]);
            if str_eq(self.cookies[i - 1].0.as_str(), k) {
                return Some(i - 1);
            }
            i = i - 1;
        }
        None
    }

    /// The clearance cookie, or an empty string when there is none.
    pub fn get(&self) -> (r: String)
        ensures
            r@ == match lookup(self.pairs(), CF_COOKIE_KEY@) {
                Some(v) => v,
                None => Seq::empty(),
            },
    {
        proof {
            lemma_name_pos(self.pairs(), CF_COOKIE_KEY@);
        }
        match self.position(CF_COOKIE_KEY) {
            Some(i) => owned(self.cookies[i].1.as_str()),
            None => String::new(),
        }
    }

    /// Sets the cookie `k` to `v`.
    pub fn set(&mut self, k: &str, v: &str)
        requires
            names_distinct(old(self).pairs()),
        ensures
            final(self).pairs() == set_spec(old(self).pairs(), k@, v@),
            names_distinct(final(self).pairs()),
            final(self).user_agent == old(self).user_agent,
    {
        let ghost s = self.pairs();
        let ghost old_v = self.cookies@;
        proof {
            lemma_set_then_lookup(s, k@, v@, k@);
            lemma_name_pos(s, k@);
        }
        match self.position(k) {
            Some(i) => {
                self.cookies.set(i, (owned(k), owned(v)));
                assert forall|j: int| 0 <= j < s.len() implies #[trigger] self.pairs()[j] == set_spec(s, k@, v@)[j] by {
                    if j != i {
                        assert(self.cookies@[j] == old_v[j]);
                        assert(s[j] == old_v[j].deep_view());
                    } else {
                        assert(self.pairs()[j] == (k@, v@));
                    }
                }
                assert(self.pairs() =~= set_spec(s, k@, v@));
            },
            None => {
                self.cookies.push((owned(k), owned(v)));
                assert(self.pairs() =~= set_spec(s, k@, v@));
            },
        }
    }

    /// Sets each cookie in turn; the result is the last clearance set, which
    /// is to be saved.
    pub fn set_all(&mut self, all: &Vec<(String, String)>) -> (r: Option<String>)
        requires
            names_distinct(old(self).pairs()),
        ensures
            final(self).pairs() == set_all_spec(old(self).pairs(), all.deep_view()),
            names_distinct(final(self).pairs()),
            r.deep_view() == last_clearance(all.deep_view()),
            final(self).user_agent == old(self).user_agent,
    {
        let ghost s0 = self.pairs();
        let ghost av = all.deep_view();
        let mut r: Option<String> = None;
        let mut i: usize = 0;
        while i < all.len()
            invariant
                i <= all@.len(),
                av == all.deep_view(),
                names_distinct(self.pairs()),
                self.user_agent == old(self).user_agent,
                self.pairs() == set_all_spec(s0, av.take(i as int)),
                r.deep_view() == last_clearance(av.take(i as int)),
            decreases all@.len() - i,
        {
            let ghost pre = av.take(i as int + 1);
            assert(pre.drop_last() =~= av.take(i as int));
            assert(pre.last() == av[i as int]);
            let (k, v) = (&all[i].0, &all[i].1);
            self.set(k.as_str(), v.as_str());
            if str_eq(k.as_str(), CF_COOKIE_KEY) {
                r = Some(owned(v.as_str()));
            }
            i = i + 1;
        }
        assert(av.take(i as int) =~= av);
        r
    }

    /// The `Cookie` header made of the cookies, as `header_spec` writes it.
    pub fn cookie_header(&self) -> (r: String)
        ensures
            r@ == header_spec(self.pairs()),
    {
        let mut r = String::new();
        let mut i: usize = 0;
        while i < self.cookies.len()
            invariant
                i <= self.cookies@.len(),
                r@ == header_spec(self.pairs().take(i as int)),
            decreases self.cookies@.len() - i,
        {
            let ghost pre = self.pairs().take(i as int + 1);
            assert(pre.drop_last() =~= self.pairs().take(i as int));
            assert(pre.last() == self.pairs()[i as int]);
            if i > 0 {
                push_str(&mut r, "; ");
            } else {
                assert(pre =~= seq![self.pairs()[0]]);
            }
            push_str(&mut r, self.cookies[i].0.as_str());
            push_str(&mut r, "=");
            push_str(&mut r, self.cookies[i].1.as_str());
            i = i + 1;
        }
        assert(self.pairs().take(i as int) =~= self.pairs());
        r
    }
}

} // verus!
