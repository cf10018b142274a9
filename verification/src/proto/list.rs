use vstd::prelude::*;
use crate::proto::error::Error;
use crate::proto::helper::{reads, then, writes, Encoding, Parsed, ReadWindow};
use crate::proto::net::{Deserialize, Serialize};

verus! {

/// The encoding of the items of a list, one after the other.
#[verifier::opaque]
pub open spec fn list_encoding<T: Serialize>(items: Seq<T>) -> Encoding
    decreases items.len(),
{
    if items.len() == 0 {
        Ok(Seq::empty())
    } else {
        then(items[0].encoding(), list_encoding(items.skip(1)))
    }
}

/// The models of the items of a list.
pub open spec fn models<T: Deserialize>(items: Seq<T>) -> Seq<T::Model> {
    Seq::new(items.len(), |i: int| items[i].model())
}

/// Reading `count` items, one after the other.
#[verifier::opaque]
pub open spec fn parse_list<T: Deserialize>(count: nat, s: Seq<u8>) -> Parsed<Seq<T::Model>>
    decreases count,
{
    if count == 0 {
        Ok((Seq::empty(), 0))
    } else {
        match T::parse(s) {
            Err(e) => Err(e),
            Ok((first, n)) => match parse_list::<T>((count - 1) as nat, s.skip(n as int)) {
                Err(e) => Err(e),
                Ok((others, m)) => Ok((seq![first] + others, n + m)),
            },
        }
    }
}

/// What reading a list comes to, once some items were read and the others
/// are parsed from what follows them.
pub open spec fn continued<M>(done: Seq<M>, taken: nat, others: Parsed<Seq<M>>) -> Parsed<Seq<M>> {
    match others {
        Err(e) => Err(e),
        Ok((items, m)) => Ok((done + items, taken + m)),
    }
}

/// Writes the items of a list, one after the other.
pub fn write_list<T: Serialize>(items: &Vec<T>, write: &mut Vec<u8>) -> (r: Result<(), Error>)
    ensures
        writes(old(write)@, final(write)@, list_encoding(items@), r),
{
    let mut i: usize = 0;
    let ghost mut done: Seq<u8> = Seq::empty();
    proof {
        reveal(list_encoding);
        assert(items@.skip(0) == items@);
        assert(old(write)@ + done == old(write)@);
    }
    while i < items.len()
        invariant
            i <= items.len(),
            write@ == old(write)@ + done,
            list_encoding(items@) == then(Ok(done), list_encoding(items@.skip(i as int))),
        decreases items.len() - i,
    {
        let ghost before = write@;
        let ghost tail = items@.skip(i as int);
        proof {
            reveal(list_encoding);
            assert(tail[0] == items@[i as int]);
            assert(tail.skip(1) == items@.skip(i + 1));
        }
        match items[i].serialize(write) {
            Ok(()) => {},
            Err(e) => {
                proof {
                    assert(old(write)@.is_prefix_of(before));
                    assert(old(write)@.is_prefix_of(write@));
                }
                return Err(e);
            },
        }
        proof {
            let w = items@[i as int].encoding()->Ok_0;
            assert(write@ == old(write)@ + (done + w));
            match list_encoding(items@.skip(i + 1)) {
                Ok(y) => {
                    assert(done + (w + y) == (done + w) + y);
                },
                Err(_) => {},
            }
            done = done + w;
        }
        i = i + 1;
    }
    proof {
        reveal(list_encoding);
        assert(done + Seq::<u8>::empty() == done);
    }
    Ok(())
}

/// Reads `count` items, one after the other.
pub fn read_list<T: Deserialize>(count: usize, read: &mut ReadWindow<'_>) -> (r: Result<
    Vec<T>,
    Error,
>)
    ensures
        reads(*old(read), *final(read), parse_list::<T>(count as nat, old(read).unread()), r),
        r matches Ok(v) ==> parse_list::<T>(count as nat, old(read).unread()) matches Ok((m, _))
            && models(v@) == m,
{
    let mut cur = *read;
    let mut items: Vec<T> = Vec::new();
    let mut i: usize = 0;
    let ghost s = old(read).unread();
    let ghost mut taken: nat = 0;
    proof {
        reveal(parse_list);
        assert(s.skip(0) == s);
        assert(models(items@) == Seq::<T::Model>::empty());
        match parse_list::<T>(count as nat, s) {
            Ok((list, m)) => {
                assert(Seq::<T::Model>::empty() + list == list);
            },
            Err(_) => {},
        }
    }
    while i < count
        invariant
            i <= count,
            items@.len() == i,
            *read == *old(read),
            s == old(read).unread(),
            taken <= s.len(),
            cur.unread() == s.skip(taken as int),
            cur.missing() == old(read).missing(),
            parse_list::<T>(count as nat, s) == continued(
                models(items@),
                taken,
                parse_list::<T>((count - i) as nat, cur.unread()),
            ),
        decreases count - i,
    {
        let ghost here = cur.unread();
        let ghost before = models(items@);
        proof {
            reveal(parse_list);
        }
        let item = T::deserialize(&mut cur)?;
        proof {
            let (first, n) = T::parse(here)->Ok_0;
            assert(cur.unread() == here.skip(n as int));
            assert(here.skip(n as int) == s.skip((taken + n) as int));
            match parse_list::<T>((count - i - 1) as nat, here.skip(n as int)) {
                Ok((others, m)) => {
                    assert(before + (seq![first] + others) == before.push(first) + others);
                },
                Err(_) => {},
            }
            taken = taken + n;
        }
        items.push(item);
        proof {
            assert(models(items@) == before.push(item.model()));
        }
        i = i + 1;
    }
    proof {
        reveal(parse_list);
        assert(models(items@) + Seq::<T::Model>::empty() == models(items@));
    }
    *read = cur;
    Ok(items)
}

} // verus!
