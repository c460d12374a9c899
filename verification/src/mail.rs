//! The per-user inbox: lazy seeding from the shared template table, the
//! joined listing, and the single-row read/classify/delete updates.
//!
//! Seeding inserts one unread, unclassified row per template the user does
//! not have yet, so a repeated listing never duplicates a row; the
//! classification updates feed the task-verification predicate.

use vstd::prelude::*;

use crate::errors::Error;
use crate::model::{
    has_template, has_user_email, has_user_id, template_idx, user_email_idx, EmailTemplateView,
    EmailView, StoreView, UserEmailView,
};
use crate::records::{Email, UserEmail};
use crate::store::Store;

verus! {

/// The views of a sequence of joined inbox rows.
pub open spec fn email_views(rows: Seq<Email>) -> Seq<EmailView> {
    rows.map_values(|r: Email| r@)
}

/// The inbox rows a seeding pass adds: one fresh row per template the user
/// does not have yet, in template order.
pub open spec fn inbox_gap(
    templates: Seq<EmailTemplateView>,
    rows: Seq<UserEmailView>,
    user_id: u64,
) -> Seq<UserEmailView>
    decreases templates.len(),
{
    if templates.len() == 0 {
        Seq::empty()
    } else {
        inbox_gap(templates.drop_last(), rows, user_id) + if has_user_email(
            rows,
            user_id,
            templates.last().id,
        ) {
            Seq::empty()
        } else {
            seq![
                UserEmailView {
                    user_id,
                    universal_email_id: templates.last().id,
                    is_read: false,
                    classification: "none"@,
                },
            ]
        }
    }
}

/// The rows a seeding pass adds belong to the user, cover only templates
/// the user lacked, carry template ids from the template table, and are
/// pairwise distinct when template ids are.
pub proof fn lemma_inbox_gap(
    templates: Seq<EmailTemplateView>,
    rows: Seq<UserEmailView>,
    user_id: u64,
)
    requires
        forall|i: int, j: int|
            #![trigger templates[i], templates[j]]
            0 <= i < j < templates.len() ==> templates[i].id != templates[j].id,
    ensures
        forall|k: int|
            0 <= k < inbox_gap(templates, rows, user_id).len() ==> {
                let row = #[trigger] inbox_gap(templates, rows, user_id)[k];
                &&& row.user_id == user_id
                &&& !row.is_read
                &&& row.classification == "none"@
                &&& !has_user_email(rows, user_id, row.universal_email_id)
                &&& has_template(templates, row.universal_email_id)
            },
        forall|k1: int, k2: int|
            #![trigger inbox_gap(templates, rows, user_id)[k1], inbox_gap(templates, rows, user_id)[k2]]
            0 <= k1 < k2 < inbox_gap(templates, rows, user_id).len() ==> inbox_gap(
                templates,
                rows,
                user_id,
            )[k1].universal_email_id != inbox_gap(templates, rows, user_id)[k2].universal_email_id,
    decreases templates.len(),
{
    if templates.len() > 0 {
        let rest = inbox_gap(templates.drop_last(), rows, user_id);
        let d = inbox_gap(templates, rows, user_id);
        lemma_inbox_gap(templates.drop_last(), rows, user_id);
        assert forall|k: int| 0 <= k < d.len() implies {
            let row = #[trigger] d[k];
            &&& row.user_id == user_id
            &&& !row.is_read
            &&& row.classification == "none"@
            &&& !has_user_email(rows, user_id, row.universal_email_id)
            &&& has_template(templates, row.universal_email_id)
        } by {
            if k < rest.len() {
                assert(d[k] == rest[k]);
                let w = template_idx(templates.drop_last(), rest[k].universal_email_id);
                assert(templates[w].id == rest[k].universal_email_id);
            } else {
                assert(d[k].universal_email_id == templates.last().id);
                assert(templates[templates.len() - 1].id == d[k].universal_email_id);
            }
        }
        if !has_user_email(rows, user_id, templates.last().id) {
            assert forall|k1: int, k2: int|
                #![trigger d[k1], d[k2]]
                0 <= k1 < k2 < d.len() implies d[k1].universal_email_id
                != d[k2].universal_email_id by {
                if k2 == d.len() - 1 {
                    assert(d[k2].universal_email_id == templates.last().id);
                    assert(d[k1] == rest[k1]);
                    let w = template_idx(templates.drop_last(), rest[k1].universal_email_id);
                    assert(templates[w].id == rest[k1].universal_email_id);
                    assert(templates[w].id != templates[templates.len() - 1].id);
                } else {
                    assert(d[k1] == rest[k1] && d[k2] == rest[k2]);
                }
            }
        }
    }
}

/// One inbox row joined with its template's content.
pub open spec fn joined_row(row: UserEmailView, t: EmailTemplateView) -> EmailView {
    EmailView {
        user_id: row.user_id,
        universal_email_id: row.universal_email_id,
        is_read: row.is_read,
        classification: row.classification,
        from_user: t.from_user,
        subject: t.subject,
        body: t.body,
    }
}

/// The user's inbox rows joined with their templates, in row order.
pub open spec fn joined_inbox(
    rows: Seq<UserEmailView>,
    templates: Seq<EmailTemplateView>,
    user_id: u64,
) -> Seq<EmailView>
    decreases rows.len(),
{
    if rows.len() == 0 {
        Seq::empty()
    } else {
        joined_inbox(rows.drop_last(), templates, user_id) + if rows.last().user_id == user_id {
            seq![
                joined_row(
                    rows.last(),
                    templates[template_idx(templates, rows.last().universal_email_id)],
                ),
            ]
        } else {
            Seq::empty()
        }
    }
}

impl Store {
    /// Inserts the missing inbox rows for this user, one per template email
    /// the user has no row for yet, each unread and unclassified.  A
    /// missing user cannot own inbox rows and is refused as a constraint
    /// violation, changing nothing.
    pub fn seed_user_emails(&mut self, user_id: u64) -> (r: Result<(), Error>)
        requires
            old(self).wf(),
        ensures
            final(self).wf(),
            !has_user_id(old(self)@.users, user_id) ==> r == Err::<(), Error>(
                Error::DatabaseFailure,
            ) && final(self)@ == old(self)@,
            has_user_id(old(self)@.users, user_id) ==> r == Ok::<(), Error>(()) && final(self)@
                == (StoreView {
                user_emails: old(self)@.user_emails + inbox_gap(
                    old(self)@.universal_emails,
                    old(self)@.user_emails,
                    user_id,
                ),
                ..old(self)@
            }),
    {
        if self.find_user_by_id(user_id).is_none() {
            return Err(Error::DatabaseFailure);
        }
        let ghost pre = self@;
        let mut additions: Vec<UserEmail> = Vec::new();
        let n = self.universal_emails.len();
        let mut i: usize = 0;
        while i < n
            invariant
                self.wf(),
                self@ == pre,
                n == self.universal_emails.len(),
                i <= n,
                crate::model::user_email_views(additions@) == inbox_gap(
                    pre.universal_emails.subrange(0, i as int),
                    pre.user_emails,
                    user_id,
                ),
            decreases n - i,
        {
            let tid = self.universal_emails[i].id;
            if self.find_user_email(user_id, tid).is_none() {
                additions.push(
                    UserEmail {
                        user_id,
                        universal_email_id: tid,
                        is_read: false,
                        classification: String::from_str("none"),
                    },
                );
            }
            i += 1;
            proof {
                assert(pre.universal_emails.subrange(0, i as int).drop_last() =~= pre
                    .universal_emails.subrange(0, i - 1));
                assert(crate::model::user_email_views(additions@) =~= inbox_gap(
                    pre.universal_emails.subrange(0, i as int),
                    pre.user_emails,
                    user_id,
                ));
            }
        }
        proof {
            assert(pre.universal_emails.subrange(0, n as int) =~= pre.universal_emails);
        }
        let ghost gap = inbox_gap(pre.universal_emails, pre.user_emails, user_id);
        self.user_emails.append(&mut additions);
        proof {
            assert(self@ =~~= (StoreView { user_emails: pre.user_emails + gap, ..pre }));
            lemma_inbox_gap(pre.universal_emails, pre.user_emails, user_id);
            let post = self@;
            assert forall|k: int| 0 <= k < post.user_emails.len() implies {
                &&& has_user_id(post.users, (#[trigger] post.user_emails[k]).user_id)
                &&& has_template(post.universal_emails, post.user_emails[k].universal_email_id)
            } by {
                if k < pre.user_emails.len() {
                    assert(post.user_emails[k] == pre.user_emails[k]);
                } else {
                    assert(post.user_emails[k] == gap[k - pre.user_emails.len()]);
                }
            }
            assert forall|a: int, b: int|
                #![trigger post.user_emails[a], post.user_emails[b]]
                0 <= a < b < post.user_emails.len() implies !(post.user_emails[a].user_id
                == post.user_emails[b].user_id && post.user_emails[a].universal_email_id
                == post.user_emails[b].universal_email_id) by {
                let n0 = pre.user_emails.len() as int;
                if a < n0 && b >= n0 {
                    // An old row and a seeded row: the seeded one covers a
                    // template the user had no row for.
                    assert(post.user_emails[b] == gap[b - n0]);
                    if post.user_emails[a].user_id == user_id && post.user_emails[a]
                        .universal_email_id == gap[b - n0].universal_email_id {
                        assert(has_user_email(
                            pre.user_emails,
                            user_id,
                            gap[b - n0].universal_email_id,
                        ));
                        assert(false);
                    }
                } else if a >= n0 {
                    assert(post.user_emails[a] == gap[a - n0]);
                    assert(post.user_emails[b] == gap[b - n0]);
                }
            }
        }
        Ok(())
    }

    /// Seeds the user's inbox, then lists it: every row of the user joined
    /// with its template's sender, subject and body, in row order.
    pub fn get_emails(&mut self, user_id: u64) -> (r: Result<Vec<Email>, Error>)
        requires
            old(self).wf(),
        ensures
            final(self).wf(),
            !has_user_id(old(self)@.users, user_id) ==> (r matches Err(e) && e
                == Error::DatabaseFailure) && final(self)@ == old(self)@,
            has_user_id(old(self)@.users, user_id) ==> final(self)@ == (StoreView {
                user_emails: old(self)@.user_emails + inbox_gap(
                    old(self)@.universal_emails,
                    old(self)@.user_emails,
                    user_id,
                ),
                ..old(self)@
            }) && (r matches Ok(list) && email_views(list@) == joined_inbox(
                final(self)@.user_emails,
                final(self)@.universal_emails,
                user_id,
            )),
    {
        if let Err(e) = self.seed_user_emails(user_id) {
            return Err(e);
        }
        let mut out: Vec<Email> = Vec::new();
        let n = self.user_emails.len();
        let mut i: usize = 0;
        while i < n
            invariant
                self.wf(),
                n == self.user_emails.len(),
                i <= n,
                email_views(out@) == joined_inbox(
                    self@.user_emails.subrange(0, i as int),
                    self@.universal_emails,
                    user_id,
                ),
            decreases n - i,
        {
            if self.user_emails[i].user_id == user_id {
                let tid = self.user_emails[i].universal_email_id;
                proof {
                    assert(has_template(self@.universal_emails, self@.user_emails[i as int]
                        .universal_email_id));
                }
                match self.find_template_by_id(tid) {
                    Some(t) => {
                        proof {
                            let c = template_idx(self@.universal_emails, tid);
                            assert(self@.universal_emails[c].id == tid);
                            assert(c == t as int);
                        }
                        let row = &self.user_emails[i];
                        let tpl = &self.universal_emails[t];
                        out.push(
                            Email {
                                user_id: row.user_id,
                                universal_email_id: row.universal_email_id,
                                is_read: row.is_read,
                                classification: row.classification.clone(),
                                from_user: tpl.from_user.clone(),
                                subject: tpl.subject.clone(),
                                body: tpl.body.clone(),
                            },
                        );
                    },
                    None => {
                        proof {
                            assert(false);
                        }
                    },
                }
            }
            i += 1;
            proof {
                assert(self@.user_emails.subrange(0, i as int).drop_last() =~= self@.user_emails
                    .subrange(0, i - 1));
                assert(email_views(out@) =~= joined_inbox(
                    self@.user_emails.subrange(0, i as int),
                    self@.universal_emails,
                    user_id,
                ));
            }
        }
        proof {
            assert(self@.user_emails.subrange(0, n as int) =~= self@.user_emails);
        }
        Ok(out)
    }

    /// Marks the (user, template) inbox row as read; a pair with no row
    /// matches nothing and is reported as success.
    pub fn mark_email_as_read(&mut self, user_id: u64, universal_email_id: u64) -> (r: Result<
        (),
        Error,
    >)
        requires
            old(self).wf(),
        ensures
            final(self).wf(),
            r == Ok::<(), Error>(()),
            !has_user_email(old(self)@.user_emails, user_id, universal_email_id) ==> final(self)@
                == old(self)@,
            has_user_email(old(self)@.user_emails, user_id, universal_email_id) ==> final(self)@
                == (StoreView {
                user_emails: old(self)@.user_emails.update(
                    user_email_idx(old(self)@.user_emails, user_id, universal_email_id),
                    (UserEmailView {
                        is_read: true,
                        ..old(self)@.user_emails[user_email_idx(
                            old(self)@.user_emails,
                            user_id,
                            universal_email_id,
                        )]
                    }),
                ),
                ..old(self)@
            }),
    {
        let j = match self.find_user_email(user_id, universal_email_id) {
            Some(j) => j,
            None => { return Ok(()) },
        };
        let ghost pre = self@;
        let mut row = self.user_emails[j].duplicate();
        row.is_read = true;
        self.user_emails.set(j, row);
        proof {
            let ji = j as int;
            assert(self@ =~~= (StoreView {
                user_emails: pre.user_emails.update(
                    ji,
                    (UserEmailView { is_read: true, ..pre.user_emails[ji] }),
                ),
                ..pre
            }));
            self.lemma_user_email_update_wf(pre, ji);
        }
        Ok(())
    }

    /// Stores the user's classification of the (user, template) inbox row;
    /// a pair with no row matches nothing and is reported as success.
    pub fn classify_email(
        &mut self,
        user_id: u64,
        universal_email_id: u64,
        classification: String,
    ) -> (r: Result<(), Error>)
        requires
            old(self).wf(),
        ensures
            final(self).wf(),
            r == Ok::<(), Error>(()),
            !has_user_email(old(self)@.user_emails, user_id, universal_email_id) ==> final(self)@
                == old(self)@,
            has_user_email(old(self)@.user_emails, user_id, universal_email_id) ==> final(self)@
                == (StoreView {
                user_emails: old(self)@.user_emails.update(
                    user_email_idx(old(self)@.user_emails, user_id, universal_email_id),
                    (UserEmailView {
                        classification: classification@,
                        ..old(self)@.user_emails[user_email_idx(
                            old(self)@.user_emails,
                            user_id,
                            universal_email_id,
                        )]
                    }),
                ),
                ..old(self)@
            }),
    {
        let j = match self.find_user_email(user_id, universal_email_id) {
            Some(j) => j,
            None => { return Ok(()) },
        };
        let ghost pre = self@;
        let mut row = self.user_emails[j].duplicate();
        row.classification = classification;
        self.user_emails.set(j, row);
        proof {
            let ji = j as int;
            assert(self@ =~~= (StoreView {
                user_emails: pre.user_emails.update(
                    ji,
                    (UserEmailView { classification: classification@, ..pre.user_emails[ji] }),
                ),
                ..pre
            }));
            self.lemma_user_email_update_wf(pre, ji);
        }
        Ok(())
    }

    /// Deletes the (user, template) inbox row; a pair with no row matches
    /// nothing and is reported as success.
    pub fn delete_email(&mut self, user_id: u64, universal_email_id: u64) -> (r: Result<(), Error>)
        requires
            old(self).wf(),
        ensures
            final(self).wf(),
            r == Ok::<(), Error>(()),
            !has_user_email(old(self)@.user_emails, user_id, universal_email_id) ==> final(self)@
                == old(self)@,
            has_user_email(old(self)@.user_emails, user_id, universal_email_id) ==> final(self)@
                == (StoreView {
                user_emails: old(self)@.user_emails.remove(
                    user_email_idx(old(self)@.user_emails, user_id, universal_email_id),
                ),
                ..old(self)@
            }),
    {
        let j = match self.find_user_email(user_id, universal_email_id) {
            Some(j) => j,
            None => { return Ok(()) },
        };
        let ghost pre = self@;
        self.user_emails.remove(j);
        proof {
            let ji = j as int;
            assert(self@ =~~= (StoreView { user_emails: pre.user_emails.remove(ji), ..pre }));
            let post = self@;
            assert forall|k: int| 0 <= k < post.user_emails.len() implies {
                &&& has_user_id(post.users, (#[trigger] post.user_emails[k]).user_id)
                &&& has_template(post.universal_emails, post.user_emails[k].universal_email_id)
            } by {
                if k < ji {
                    assert(post.user_emails[k] == pre.user_emails[k]);
                } else {
                    assert(post.user_emails[k] == pre.user_emails[k + 1]);
                }
            }
            assert forall|a: int, b: int|
                #![trigger post.user_emails[a], post.user_emails[b]]
                0 <= a < b < post.user_emails.len() implies !(post.user_emails[a].user_id
                == post.user_emails[b].user_id && post.user_emails[a].universal_email_id
                == post.user_emails[b].universal_email_id) by {
                let oa = if a < ji {
                    a
                } else {
                    a + 1
                };
                let ob = if b < ji {
                    b
                } else {
                    b + 1
                };
                assert(post.user_emails[a] == pre.user_emails[oa]);
                assert(post.user_emails[b] == pre.user_emails[ob]);
            }
        }
        Ok(())
    }

    /// Replacing one inbox row by another with the same key fields keeps
    /// the inbox well-formed.
    proof fn lemma_user_email_update_wf(&self, pre: StoreView, i: int)
        requires
            0 <= i < pre.user_emails.len(),
            self@.user_emails.len() == pre.user_emails.len(),
            self@.user_emails == pre.user_emails.update(i, self@.user_emails[i]),
            self@.user_emails[i].user_id == pre.user_emails[i].user_id,
            self@.user_emails[i].universal_email_id == pre.user_emails[i].universal_email_id,
            self@.users == pre.users,
            self@.universal_emails == pre.universal_emails,
            pre.wf(),
        ensures
            forall|k: int|
                0 <= k < self@.user_emails.len() ==> has_user_id(
                    self@.users,
                    (#[trigger] self@.user_emails[k]).user_id,
                ) && has_template(
                    self@.universal_emails,
                    self@.user_emails[k].universal_email_id,
                ),
            forall|a: int, b: int|
                #![trigger self@.user_emails[a], self@.user_emails[b]]
                0 <= a < b < self@.user_emails.len() ==> !(self@.user_emails[a].user_id == self@
                    .user_emails[b].user_id && self@.user_emails[a].universal_email_id == self@
                    .user_emails[b].universal_email_id),
    {
        let post = self@;
        assert forall|k: int| 0 <= k < post.user_emails.len() implies has_user_id(
            post.users,
            (#[trigger] post.user_emails[k]).user_id,
        ) && has_template(post.universal_emails, post.user_emails[k].universal_email_id) by {
            assert(post.user_emails[k].user_id == pre.user_emails[k].user_id);
            assert(post.user_emails[k].universal_email_id == pre.user_emails[k].universal_email_id);
        }
    }
}

} // verus!
