use triage_seeder::routes::{
    is_success_status, route_matrix_outcome, GeoPoint, RoutesError, UpstreamErrorBody,
};

#[test]
fn geo_point_carries_its_coordinates() {
    let p = GeoPoint::new(3869992028648600, -918819546474445);
    assert_eq!(p.latitude_e14, 3869992028648600);
    assert_eq!(p.longitude_e14, -918819546474445);
}

#[test]
fn success_statuses_are_the_2xx_range() {
    assert!(is_success_status(200));
    assert!(is_success_status(204));
    assert!(is_success_status(299));
    assert!(!is_success_status(199));
    assert!(!is_success_status(300));
    assert!(!is_success_status(404));
}

#[test]
fn successful_responses_are_ok_even_with_noise() {
    assert!(route_matrix_outcome(200, None, String::new()).is_ok());
    let noise = Some(UpstreamErrorBody {
        code: 3,
        message: Some("ignored".to_string()),
    });
    assert!(route_matrix_outcome(204, noise, "body".to_string()).is_ok());
}

#[test]
fn upstream_errors_carry_code_and_message() {
    let upstream = Some(UpstreamErrorBody {
        code: 429,
        message: Some("quota exhausted".to_string()),
    });
    let err = route_matrix_outcome(403, upstream, "raw".to_string()).unwrap_err();
    match err {
        RoutesError::Upstream { code, message } => {
            assert_eq!(code, 429);
            assert_eq!(message.as_deref(), Some("quota exhausted"));
        }
        RoutesError::Http { .. } => panic!("expected the structured upstream error"),
    }
}

#[test]
fn unstructured_errors_carry_status_and_body() {
    let err = route_matrix_outcome(500, None, "boom".to_string()).unwrap_err();
    match err {
        RoutesError::Http { status, body } => {
            assert_eq!(status, 500);
            assert_eq!(body, "boom");
        }
        RoutesError::Upstream { .. } => panic!("expected the raw HTTP error"),
    }
}
