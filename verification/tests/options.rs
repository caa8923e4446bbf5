use sha1dir::pool::pool_outcome;
use sha1dir::{configure_thread_pool, thread_count, Opt};

#[test]
fn dirs_come_back_as_given() {
    let given = vec![b"b".to_vec(), b"./a".to_vec(), b"/tmp/\xffx".to_vec(), b"b".to_vec()];
    let opt = Opt::new(None, given.clone());
    assert_eq!(opt.dirs(), given);
    assert_eq!(opt.dirs(), given);
    assert_eq!(opt.jobs(), None);
}

#[test]
fn no_dirs_is_an_empty_list() {
    let opt = Opt::new(Some(3), Vec::new());
    assert!(opt.dirs().is_empty());
    assert_eq!(opt.jobs(), Some(3));
}

#[test]
fn chosen_number_of_jobs_wins() {
    assert_eq!(thread_count(Some(1), 64), 1);
    assert_eq!(thread_count(Some(22), 2), 22);
    assert_eq!(thread_count(Some(0), 4), 0);
    assert_eq!(thread_count(Some(usize::MAX), 4), usize::MAX);
}

#[test]
fn default_is_one_worker_for_each_cpu_up_to_eight() {
    assert_eq!(thread_count(None, 1), 1);
    assert_eq!(thread_count(None, 7), 7);
    assert_eq!(thread_count(None, 8), 8);
    assert_eq!(thread_count(None, 9), 8);
    assert_eq!(thread_count(None, 128), 8);
    assert_eq!(thread_count(None, 0), 0);
}

#[test]
fn pool_is_set_up_with_the_chosen_number() {
    let opt = Opt::new(Some(3), Vec::new());
    match configure_thread_pool(&opt) {
        Ok(threads) => {
            assert_eq!(threads, 3);
            assert_eq!(rayon::current_num_threads(), 3);
        }
        Err(error) => assert_eq!(error.threads, 3),
    }
}

#[test]
fn pool_by_default_has_between_one_and_eight_workers() {
    let opt = Opt::new(None, Vec::new());
    let threads = match configure_thread_pool(&opt) {
        Ok(threads) => threads,
        Err(error) => error.threads,
    };
    assert!(1 <= threads && threads <= 8);
    assert_eq!(threads, thread_count(None, num_cpus::get()));
}

#[test]
fn pool_cannot_be_set_up_twice() {
    let opt = Opt::new(Some(2), Vec::new());
    let _ = configure_thread_pool(&opt);
    match configure_thread_pool(&opt) {
        Ok(_) => panic!("the global pool was built twice"),
        Err(error) => {
            assert_eq!(error.threads, 2);
            assert!(!error.message.is_empty());
        }
    }
}

#[test]
fn outcome_follows_what_rayon_answered() {
    assert!(matches!(pool_outcome(5, Ok(())), Ok(5)));
    let _ = rayon::ThreadPoolBuilder::new().num_threads(1).build_global();
    let refused = rayon::ThreadPoolBuilder::new().num_threads(1).build_global();
    assert!(refused.is_err());
    let text = format!("{}", refused.as_ref().unwrap_err());
    match pool_outcome(6, refused) {
        Ok(_) => panic!("an error became a success"),
        Err(error) => {
            assert_eq!(error.threads, 6);
            assert_eq!(error.message, text);
        }
    }
}
